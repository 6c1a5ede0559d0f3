use gpu_status::records::{parse_gpu_lines, parse_process_lines, ParseError, Process, GPU};

#[test]
fn gpu_line_example() {
    let g = GPU::from_line("0, GPU-abc, Tesla T4, 1024, 16384, 42, Enabled").unwrap();
    assert_eq!(g.index, 0);
    assert_eq!(g.gpu_uuid, "GPU-abc");
    assert_eq!(g.name, "Tesla T4");
    assert_eq!(g.memory_used, 1024);
    assert_eq!(g.memory_total, 16384);
    assert_eq!(g.utilization_gpu, 42);
    assert!(g.persistence_mode);
}

#[test]
fn gpu_line_arbitrary_whitespace() {
    let g = GPU::from_line("  1 ,\tGPU-x\t,  Quadro P5000  , 0 ,   8192,\t7 ,  Disabled  ")
        .unwrap();
    assert_eq!(g.index, 1);
    assert_eq!(g.gpu_uuid, "GPU-x");
    assert_eq!(g.name, "Quadro P5000");
    assert_eq!(g.memory_used, 0);
    assert_eq!(g.memory_total, 8192);
    assert_eq!(g.utilization_gpu, 7);
    assert!(!g.persistence_mode);
}

#[test]
fn persistence_mode_is_exact_match_only() {
    let line = |mode: &str| format!("0, u, n, 1, 2, 3, {}", mode);
    assert!(GPU::from_line(&line("Enabled")).unwrap().persistence_mode);
    assert!(GPU::from_line(&line(" Enabled ")).unwrap().persistence_mode);
    assert!(!GPU::from_line(&line("Disabled")).unwrap().persistence_mode);
    assert!(!GPU::from_line(&line("enabled")).unwrap().persistence_mode);
    assert!(!GPU::from_line(&line("ENABLED")).unwrap().persistence_mode);
    assert!(!GPU::from_line(&line("")).unwrap().persistence_mode);
}

#[test]
fn gpu_line_wrong_field_count() {
    assert!(matches!(
        GPU::from_line("0, u, n, 1, 2, 3"),
        Err(ParseError::WrongFieldCount)
    ));
    assert!(matches!(
        GPU::from_line("0, u, n, 1, 2, 3, Enabled, extra"),
        Err(ParseError::WrongFieldCount)
    ));
    assert!(matches!(GPU::from_line(""), Err(ParseError::WrongFieldCount)));
}

#[test]
fn gpu_line_bad_numbers() {
    assert!(matches!(
        GPU::from_line("x, u, n, 1, 2, 3, Enabled"),
        Err(ParseError::BadNumber)
    ));
    assert!(matches!(
        GPU::from_line("0, u, n, , 2, 3, Enabled"),
        Err(ParseError::BadNumber)
    ));
    assert!(matches!(
        GPU::from_line("0, u, n, 1, 2, 1 0, Enabled"),
        Err(ParseError::BadNumber)
    ));
}

#[test]
fn gpu_line_range_limits() {
    let g = GPU::from_line("255, u, n, 4294967295, 4294967295, 100, Enabled").unwrap();
    assert_eq!(g.index, 255);
    assert_eq!(g.memory_used, 4294967295);
    assert!(matches!(
        GPU::from_line("256, u, n, 1, 2, 3, Enabled"),
        Err(ParseError::BadNumber)
    ));
    assert!(matches!(
        GPU::from_line("0, u, n, 4294967296, 2, 3, Enabled"),
        Err(ParseError::BadNumber)
    ));
}

#[test]
fn gpu_line_leading_zeros() {
    let g = GPU::from_line("007, u, n, 0001, 002, 03, Enabled").unwrap();
    assert_eq!(g.index, 7);
    assert_eq!(g.memory_used, 1);
    assert_eq!(g.memory_total, 2);
    assert_eq!(g.utilization_gpu, 3);
}

#[test]
fn process_line_example() {
    let p = Process::from_line(" GPU-abc , 4242, 512").unwrap();
    assert_eq!(p.gpu_uuid, "GPU-abc");
    assert_eq!(p.pid, 4242);
    assert_eq!(p.used_gpu_memory, 512);
    assert_eq!(p.user, "");
    assert_eq!(p.command, "");
}

#[test]
fn process_line_errors() {
    assert!(matches!(
        Process::from_line("GPU-abc, 4242"),
        Err(ParseError::WrongFieldCount)
    ));
    assert!(matches!(
        Process::from_line("GPU-abc, 4242, 512, extra"),
        Err(ParseError::WrongFieldCount)
    ));
    assert!(matches!(
        Process::from_line("GPU-abc, pid, 512"),
        Err(ParseError::BadNumber)
    ));
}

#[test]
fn with_lookup_trims_results() {
    let p = Process::from_line("GPU-abc, 1, 2").unwrap();
    let p = p.with_lookup(" alice \n", "\tpython train.py\n");
    assert_eq!(p.user, "alice");
    assert_eq!(p.command, "python train.py");
    assert_eq!(p.gpu_uuid, "GPU-abc");
    assert_eq!(p.pid, 1);
    assert_eq!(p.used_gpu_memory, 2);
}

#[test]
fn with_lookup_tolerates_empty_results() {
    let p = Process::from_line("GPU-abc, 1, 2").unwrap();
    let p = p.with_lookup("", "");
    assert_eq!(p.user, "");
    assert_eq!(p.command, "");
}

#[test]
fn parse_gpu_lines_two_records() {
    let text = "0, GPU-a, Tesla T4, 1024, 16384, 42, Enabled\n1, GPU-b, Tesla V100, 0, 32768, 0, Disabled\n";
    let gpus = parse_gpu_lines(text).unwrap();
    assert_eq!(gpus.len(), 2);
    assert_eq!(gpus[0].index, 0);
    assert_eq!(gpus[1].gpu_uuid, "GPU-b");
    assert!(!gpus[1].persistence_mode);
}

#[test]
fn parse_gpu_lines_without_trailing_newline() {
    let gpus = parse_gpu_lines("0, GPU-a, T, 1, 2, 3, Enabled").unwrap();
    assert_eq!(gpus.len(), 1);
}

#[test]
fn parse_gpu_lines_empty_output() {
    let gpus = parse_gpu_lines("").unwrap();
    assert_eq!(gpus.len(), 0);
}

#[test]
fn parse_gpu_lines_carriage_return() {
    let gpus = parse_gpu_lines("0, GPU-a, T, 1, 2, 3, Enabled\r\n").unwrap();
    assert_eq!(gpus.len(), 1);
    assert!(gpus[0].persistence_mode);
}

#[test]
fn parse_gpu_lines_first_error_wins() {
    let text = "0, GPU-a, T, 1, 2, 3, Enabled\nbad line\nx, u, n, 1, 2, 3, Enabled\n";
    assert!(matches!(parse_gpu_lines(text), Err(ParseError::WrongFieldCount)));
    let text2 = "x, GPU-a, T, 1, 2, 3, Enabled\nbad line\n";
    assert!(matches!(parse_gpu_lines(text2), Err(ParseError::BadNumber)));
}

#[test]
fn parse_process_lines_records() {
    let text = "GPU-a, 4242, 512\nGPU-b, 77, 1024\n";
    let procs = parse_process_lines(text).unwrap();
    assert_eq!(procs.len(), 2);
    assert_eq!(procs[0].pid, 4242);
    assert_eq!(procs[1].gpu_uuid, "GPU-b");
    assert_eq!(procs[1].used_gpu_memory, 1024);
}

#[test]
fn parse_process_lines_empty_output() {
    let procs = parse_process_lines("").unwrap();
    assert_eq!(procs.len(), 0);
}

#[test]
fn parse_error_messages() {
    assert_eq!(
        ParseError::WrongFieldCount.message(),
        "unexpected field count in telemetry line"
    );
    assert_eq!(
        ParseError::BadNumber.message(),
        "malformed numeric field in telemetry line"
    );
}
