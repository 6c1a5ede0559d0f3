use gpu_status::records::{Process, GPU};
use gpu_status::render::{
    any_missing_persistence_mode, find_gpu_index, gpu_row_line, gpu_running, proc_row_line,
    render_report,
};

fn gpu(index: u8, uuid: &str, name: &str, used: u32, total: u32, util: u32, pm: bool) -> GPU {
    GPU {
        index,
        gpu_uuid: uuid.to_string(),
        name: name.to_string(),
        memory_used: used,
        memory_total: total,
        utilization_gpu: util,
        persistence_mode: pm,
    }
}

fn proc_rec(uuid: &str, pid: u32, used: u32, user: &str, command: &str) -> Process {
    Process {
        gpu_uuid: uuid.to_string(),
        pid,
        used_gpu_memory: used,
        user: user.to_string(),
        command: command.to_string(),
    }
}

const NOTICE: &str = "| No running processes found                                      |";

#[test]
fn gpu_row_idle_exact() {
    let g = gpu(0, "GPU-a", "Tesla T4", 1024, 16384, 42, true);
    assert_eq!(
        gpu_row_line(&g, false),
        "|   0 (Tesla T4)             |  42% |  1024 / 16384 MiB | ------- |"
    );
}

#[test]
fn gpu_row_running_exact() {
    let g = gpu(1, "GPU-b", "Tesla V100", 32000, 32768, 100, false);
    assert_eq!(
        gpu_row_line(&g, true),
        "|   1 (Tesla V100)           | 100% | 32000 / 32768 MiB | RUNNING |"
    );
}

#[test]
fn gpu_row_long_name_truncated() {
    let g = gpu(2, "GPU-c", "A very long device name indeed", 1, 2, 3, true);
    // "(A very long device name indeed)" is cut to exactly 22 characters.
    assert_eq!(
        gpu_row_line(&g, false),
        "|   2 (A very long device na |   3% |     1 /     2 MiB | ------- |"
    );
}

#[test]
fn proc_row_exact() {
    let p = proc_rec("GPU-a", 4242, 512, "alice", "python train.py");
    assert_eq!(
        proc_row_line(Some(0), &p),
        "|   0 |   alice    |    4242 |   512 MiB |        python train.py |"
    );
}

#[test]
fn proc_row_long_command_truncated() {
    let p = proc_rec("GPU-a", 1, 1, "bob", "abcdefghijklmnopqrstuvwxyz0123");
    assert_eq!(
        proc_row_line(Some(3), &p),
        "|   3 |    bob     |       1 |     1 MiB | abcdefghijklmnopqrstuv |"
    );
}

#[test]
fn proc_row_short_command_padded() {
    let p = proc_rec("GPU-a", 9, 3, "carol", "sh");
    assert_eq!(
        proc_row_line(Some(0), &p),
        "|   0 |   carol    |       9 |     3 MiB |                     sh |"
    );
}

#[test]
fn proc_row_unknown_gpu_placeholder() {
    let p = proc_rec("GPU-gone", 7, 64, "dave", "cmd");
    assert_eq!(
        proc_row_line(None, &p),
        "|   ? |    dave    |       7 |    64 MiB |                    cmd |"
    );
}

#[test]
fn join_running_and_lookup() {
    let gpus = vec![
        gpu(0, "GPU-a", "T", 0, 1, 0, true),
        gpu(1, "GPU-b", "T", 0, 1, 0, true),
    ];
    let procs = vec![
        proc_rec("GPU-b", 1, 1, "", ""),
        proc_rec("GPU-b", 2, 1, "", ""),
        proc_rec("GPU-nope", 3, 1, "", ""),
    ];
    assert!(!gpu_running(&procs, &gpus[0].gpu_uuid));
    assert!(gpu_running(&procs, &gpus[1].gpu_uuid));
    assert_eq!(find_gpu_index(&gpus, &"GPU-a".to_string()), Some(0));
    assert_eq!(find_gpu_index(&gpus, &"GPU-b".to_string()), Some(1));
    assert_eq!(find_gpu_index(&gpus, &"GPU-nope".to_string()), None);
}

#[test]
fn two_idle_gpus_no_processes() {
    let gpus = vec![
        gpu(0, "GPU-a", "Tesla T4", 0, 16384, 0, true),
        gpu(1, "GPU-b", "Tesla T4", 0, 16384, 0, true),
    ];
    let procs: Vec<Process> = Vec::new();
    assert!(!any_missing_persistence_mode(&gpus));
    let lines = render_report(&gpus, &procs);
    assert_eq!(lines.len(), 8);
    assert_eq!(
        lines[0],
        "+----------------------------+------+-------------------+---------+"
    );
    assert_eq!(
        lines[1],
        "| GPU                        | %GPU | VRAM              | PROCESS |"
    );
    assert_eq!(
        lines[2],
        "|----------------------------+------+-------------------+---------|"
    );
    assert_eq!(
        lines[3],
        "|   0 (Tesla T4)             |   0% |     0 / 16384 MiB | ------- |"
    );
    assert_eq!(
        lines[4],
        "|   1 (Tesla T4)             |   0% |     0 / 16384 MiB | ------- |"
    );
    assert_eq!(
        lines[5],
        "|=================================================================|"
    );
    assert_eq!(lines[6], NOTICE);
    assert_eq!(
        lines[7],
        "+-----------------------------------------------------------------+"
    );
    assert_eq!(lines.iter().filter(|l| l.as_str() == NOTICE).count(), 1);
}

#[test]
fn advisory_running_row_and_process_table() {
    let gpus = vec![gpu(0, "GPU-a", "Tesla T4", 1024, 16384, 42, false)];
    let procs = vec![
        proc_rec("GPU-a", 4242, 512, "", "").with_lookup(" alice \n", " python train.py\n"),
    ];
    assert!(any_missing_persistence_mode(&gpus));
    let lines = render_report(&gpus, &procs);
    assert_eq!(lines.len(), 11);
    assert_eq!(
        lines[0],
        "Consider enabling persistence mode on your GPU(s) for faster response."
    );
    assert_eq!(
        lines[1],
        "For more information: https://docs.nvidia.com/deploy/driver-persistence/"
    );
    assert_eq!(
        lines[5],
        "|   0 (Tesla T4)             |  42% |  1024 / 16384 MiB | RUNNING |"
    );
    assert_eq!(
        lines[7],
        "| GPU | USER       | PID     | VRAM      | COMMAND                |"
    );
    assert_eq!(
        lines[8],
        "|-----+------------+---------+-----------+------------------------|"
    );
    assert_eq!(
        lines[9],
        "|   0 |   alice    |    4242 |   512 MiB |        python train.py |"
    );
    assert_eq!(
        lines[10],
        "+-----+------------+---------+-----------+------------------------+"
    );
    assert!(!lines.iter().any(|l| l.as_str() == NOTICE));
}

#[test]
fn one_row_per_gpu_in_input_order() {
    let gpus = vec![
        gpu(3, "GPU-d", "D", 0, 1, 0, true),
        gpu(1, "GPU-b", "B", 0, 1, 0, true),
        gpu(2, "GPU-c", "C", 0, 1, 0, true),
    ];
    let procs: Vec<Process> = Vec::new();
    let lines = render_report(&gpus, &procs);
    // three header lines, one row per GPU in listing order, divider, notice block
    assert_eq!(lines.len(), 3 + 3 + 1 + 2);
    assert!(lines[3].starts_with("|   3 (D)"));
    assert!(lines[4].starts_with("|   1 (B)"));
    assert!(lines[5].starts_with("|   2 (C)"));
}

#[test]
fn unknown_uuid_still_renders_with_placeholder() {
    let gpus = vec![gpu(0, "GPU-a", "T", 0, 1, 0, true)];
    let procs = vec![proc_rec("GPU-unknown", 5, 16, "eve", "ls")];
    let lines = render_report(&gpus, &procs);
    assert_eq!(lines.len(), 9);
    assert_eq!(
        lines[7],
        "|   ? |    eve     |       5 |    16 MiB |                     ls |"
    );
}

#[test]
fn advisory_when_any_gpu_lacks_persistence() {
    let gpus = vec![
        gpu(0, "GPU-a", "T", 0, 1, 0, true),
        gpu(1, "GPU-b", "T", 0, 1, 0, false),
    ];
    assert!(any_missing_persistence_mode(&gpus));
    let none: Vec<GPU> = Vec::new();
    assert!(!any_missing_persistence_mode(&none));
}

#[test]
fn user_centering_splits_padding() {
    // an even name sits symmetrically; an odd one leaves the extra space on the right
    let even = proc_rec("u", 1, 1, "abcdef", "c");
    assert!(proc_row_line(None, &even).contains("|   abcdef   |"));
    let odd = proc_rec("u", 1, 1, "abcde", "c");
    assert!(proc_row_line(None, &odd).contains("|   abcde    |"));
}

#[test]
fn wide_values_widen_their_cells() {
    // a pid of ten digits overflows its seven-wide column rather than truncating
    let p = proc_rec("u", 4294967295, 99999, "x", "c");
    assert_eq!(
        proc_row_line(Some(255), &p),
        "| 255 |     x      | 4294967295 | 99999 MiB |                      c |"
    );
}
