//! The join and render engine: combines the GPU list and the process list
//! by device uuid, decides each GPU's running marker, and renders the
//! fixed-width status tables line by line.

use vstd::prelude::*;
use vstd::string::*;
use crate::digits::{dec_str, lemma_dec_str_len, pow10};
use crate::layout::{
    center, center_chars, clip_left, clip_left_chars, clip_right, clip_right_chars, pad_left,
    pad_left_chars, push_all, take_width,
};
use crate::records::{gpu_view_valid, gpu_views, proc_views, GpuView, Process, ProcessView, GPU};
use crate::text::{chars_to_string, str_chars};

verus! {

/// Whether some process in `procs` runs on the GPU with the given uuid.
pub open spec fn any_process_on(procs: Seq<ProcessView>, uuid: Seq<char>) -> bool {
    exists|j: int| 0 <= j < procs.len() && procs[j].gpu_uuid == uuid
}

/// The device index of the first GPU in `gpus` whose uuid matches, if any.
pub open spec fn first_gpu_index(gpus: Seq<GpuView>, uuid: Seq<char>) -> Option<int>
    decreases gpus.len(),
{
    if gpus.len() == 0 {
        None
    } else if gpus[0].gpu_uuid == uuid {
        Some(gpus[0].index)
    } else {
        first_gpu_index(gpus.drop_first(), uuid)
    }
}

/// `first_gpu_index` finds a match exactly when one exists, and any index
/// it yields is the device index of a matching GPU.
pub proof fn lemma_first_gpu_index(gpus: Seq<GpuView>, uuid: Seq<char>)
    ensures
        first_gpu_index(gpus, uuid) is None <==> !uuid_known(gpus, uuid),
        first_gpu_index(gpus, uuid) matches Some(i) ==> exists|j: int|
            0 <= j < gpus.len() && gpus[j].gpu_uuid == uuid && gpus[j].index == i,
    decreases gpus.len(),
{
    if gpus.len() == 0 {
    } else if gpus[0].gpu_uuid == uuid {
    } else {
        let tail = gpus.drop_first();
        lemma_first_gpu_index(tail, uuid);
        if uuid_known(gpus, uuid) {
            let j = choose|j: int| 0 <= j < gpus.len() && gpus[j].gpu_uuid == uuid;
            assert(tail[j - 1] == gpus[j]);
            assert(uuid_known(tail, uuid));
        }
        if uuid_known(tail, uuid) {
            let k = choose|k: int| 0 <= k < tail.len() && tail[k].gpu_uuid == uuid;
            assert(gpus[k + 1] == tail[k]);
            assert(uuid_known(gpus, uuid));
        }
        match first_gpu_index(gpus, uuid) {
            Some(i) => {
                let k = choose|k: int|
                    0 <= k < tail.len() && tail[k].gpu_uuid == uuid && tail[k].index == i;
                assert(gpus[k + 1] == tail[k]);
            },
            None => {},
        }
    }
}

/// Whether some GPU in `gpus` carries the given uuid.
pub open spec fn uuid_known(gpus: Seq<GpuView>, uuid: Seq<char>) -> bool {
    exists|j: int| 0 <= j < gpus.len() && gpus[j].gpu_uuid == uuid
}

/// Whether any GPU in the list lacks persistence mode.
pub open spec fn missing_persistence(gpus: Seq<GpuView>) -> bool {
    exists|i: int| 0 <= i < gpus.len() && !gpus[i].persistence_mode
}

/// Whether any process in the list runs on the GPU with this uuid.
pub fn gpu_running(processes: &Vec<Process>, uuid: &String) -> (b: bool)
    ensures
        b == any_process_on(proc_views(processes@), uuid@),
{
    let mut i: usize = 0;
    while i < processes.len()
        invariant
            i <= processes@.len(),
            forall|j: int| 0 <= j < i ==> proc_views(processes@)[j].gpu_uuid != uuid@,
        decreases processes@.len() - i,
    {
        if processes[i].gpu_uuid.eq(uuid) {
            proof {
                assert(proc_views(processes@)[i as int].gpu_uuid == uuid@);
            }
            return true;
        }
        i = i + 1;
    }
    false
}

/// The device index of the first GPU whose uuid matches, if any.
pub fn find_gpu_index(gpus: &Vec<GPU>, uuid: &String) -> (r: Option<u8>)
    ensures
        opt_index(r) == first_gpu_index(gpu_views(gpus@), uuid@),
{
    let ghost gvs = gpu_views(gpus@);
    let mut i: usize = 0;
    proof {
        assert(gvs.skip(0) =~= gvs);
    }
    while i < gpus.len()
        invariant
            i <= gpus@.len(),
            gvs == gpu_views(gpus@),
            first_gpu_index(gvs, uuid@) == first_gpu_index(gvs.skip(i as int), uuid@),
        decreases gpus@.len() - i,
    {
        proof {
            assert(gvs.skip(i as int)[0] == gvs[i as int]);
        }
        if gpus[i].gpu_uuid.eq(uuid) {
            return Some(gpus[i].index);
        }
        proof {
            assert(gvs.skip(i as int).drop_first() =~= gvs.skip(i + 1 as int));
        }
        i = i + 1;
    }
    proof {
        assert(gvs.skip(gvs.len() as int) =~= Seq::<GpuView>::empty());
    }
    None
}

/// An executable option of a device index, as its mathematical value.
pub open spec fn opt_index(o: Option<u8>) -> Option<int> {
    match o {
        Some(i) => Some(i as int),
        None => None,
    }
}

/// Whether any GPU in the list lacks persistence mode, so that the
/// advisory should be printed.
pub fn any_missing_persistence_mode(gpus: &Vec<GPU>) -> (b: bool)
    ensures
        b == missing_persistence(gpu_views(gpus@)),
{
    let mut i: usize = 0;
    while i < gpus.len()
        invariant
            i <= gpus@.len(),
            forall|j: int| 0 <= j < i ==> gpu_views(gpus@)[j].persistence_mode,
        decreases gpus@.len() - i,
    {
        if !gpus[i].persistence_mode {
            proof {
                assert(!gpu_views(gpus@)[i as int].persistence_mode);
            }
            return true;
        }
        i = i + 1;
    }
    false
}

/// The status cell: the running marker, or the idle placeholder.
pub open spec fn status_cell(running: bool) -> Seq<char> {
    if running {
        "RUNNING"@
    } else {
        "-------"@
    }
}

/// One GPU-table row: index right-aligned in 3, the parenthesized name
/// left-aligned in 22 (truncated if longer), utilization right-aligned
/// in 3, used and total memory right-aligned in 5 each, then the status
/// cell.
pub open spec fn gpu_row(g: GpuView, running: bool) -> Seq<char> {
    "| "@ + pad_left(dec_str(g.index), 3) + " "@ + clip_left(seq!['('] + g.name + seq![')'], 22)
        + " | "@ + pad_left(dec_str(g.utilization_gpu), 3) + "% | "@ + pad_left(
        dec_str(g.memory_used),
        5,
    ) + " / "@ + pad_left(dec_str(g.memory_total), 5) + " MiB | "@ + status_cell(running) + " |"@
}

/// The owning-GPU cell of a process row: the device index right-aligned
/// in 3, or the placeholder `?` when no GPU carries the process's uuid.
pub open spec fn gpu_index_cell(idx: Option<int>) -> Seq<char> {
    match idx {
        Some(i) => pad_left(dec_str(i), 3),
        None => pad_left(seq!['?'], 3),
    }
}

/// One process-table row: owning GPU cell, user centered in 10, pid
/// right-aligned in 7, used memory right-aligned in 5, and the command
/// right-aligned in exactly 22 (truncated if longer, padded if shorter).
pub open spec fn proc_row(idx: Option<int>, p: ProcessView) -> Seq<char> {
    "| "@ + gpu_index_cell(idx) + " | "@ + center(p.user, 10) + " | "@ + pad_left(
        dec_str(p.pid),
        7,
    ) + " | "@ + pad_left(dec_str(p.used_gpu_memory), 5) + " MiB | "@ + clip_right(p.command, 22)
        + " |"@
}

/// Renders one GPU-table row.
pub fn gpu_row_line(g: &GPU, running: bool) -> (s: String)
    ensures
        s@ == gpu_row(g@, running),
{
    let mut s = String::from_str("| ");
    let idx = u32_cell(g.index as u32, 3);
    s.append(idx.as_str());
    s.append(" ");
    let mut pname: Vec<char> = Vec::new();
    pname.push('(');
    let nm = str_chars(g.name.as_str());
    push_all(&mut pname, &nm);
    pname.push(')');
    proof {
        assert(pname@ =~= seq!['('] + g.name@ + seq![')']);
    }
    let cell = clip_left_chars(&pname, 22);
    let cs = chars_to_string(&cell);
    s.append(cs.as_str());
    s.append(" | ");
    let util = u32_cell(g.utilization_gpu, 3);
    s.append(util.as_str());
    s.append("% | ");
    let used = u32_cell(g.memory_used, 5);
    s.append(used.as_str());
    s.append(" / ");
    let total = u32_cell(g.memory_total, 5);
    s.append(total.as_str());
    s.append(" MiB | ");
    if running {
        s.append("RUNNING");
    } else {
        s.append("-------");
    }
    s.append(" |");
    proof {
        assert(s@ =~= gpu_row(g@, running));
    }
    s
}

/// The decimal rendering of `n`, right-aligned in width `w`.
fn u32_cell(n: u32, w: usize) -> (s: String)
    ensures
        s@ == pad_left(dec_str(n as int), w as int),
{
    let d = crate::digits::u32_chars(n);
    let c = pad_left_chars(&d, w);
    chars_to_string(&c)
}

/// Renders one process-table row, given the owning GPU's index if known.
pub fn proc_row_line(idx: Option<u8>, p: &Process) -> (s: String)
    ensures
        s@ == proc_row(opt_index(idx), p@),
{
    let mut s = String::from_str("| ");
    match idx {
        Some(i) => {
            let cell = u32_cell(i as u32, 3);
            s.append(cell.as_str());
        },
        None => {
            let mut q: Vec<char> = Vec::new();
            q.push('?');
            proof {
                assert(q@ =~= seq!['?']);
            }
            let cell = pad_left_chars(&q, 3);
            let cs = chars_to_string(&cell);
            s.append(cs.as_str());
        },
    }
    s.append(" | ");
    let uv = str_chars(p.user.as_str());
    let ucell = center_chars(&uv, 10);
    let ucs = chars_to_string(&ucell);
    s.append(ucs.as_str());
    s.append(" | ");
    let pid = u32_cell(p.pid, 7);
    s.append(pid.as_str());
    s.append(" | ");
    let mem = u32_cell(p.used_gpu_memory, 5);
    s.append(mem.as_str());
    s.append(" MiB | ");
    let cv = str_chars(p.command.as_str());
    let ccell = clip_right_chars(&cv, 22);
    let ccs = chars_to_string(&ccell);
    s.append(ccs.as_str());
    s.append(" |");
    proof {
        assert(s@ =~= proc_row(opt_index(idx), p@));
    }
    s
}

/// The top border of the GPU table.
pub open spec fn gpu_table_top() -> Seq<char> {
    "+----------------------------+------+-------------------+---------+"@
}

/// The column headings of the GPU table.
pub open spec fn gpu_table_head() -> Seq<char> {
    "| GPU                        | %GPU | VRAM              | PROCESS |"@
}

/// The separator under the GPU table headings.
pub open spec fn gpu_table_sep() -> Seq<char> {
    "|----------------------------+------+-------------------+---------|"@
}

/// The divider between the GPU table and the process section.
pub open spec fn table_divider() -> Seq<char> {
    "|=================================================================|"@
}

/// The notice shown instead of a process table when no process runs.
pub open spec fn notice_line() -> Seq<char> {
    "| No running processes found                                      |"@
}

/// The bottom border under the notice.
pub open spec fn notice_bottom() -> Seq<char> {
    "+-----------------------------------------------------------------+"@
}

/// The column headings of the process table.
pub open spec fn proc_table_head() -> Seq<char> {
    "| GPU | USER       | PID     | VRAM      | COMMAND                |"@
}

/// The separator under the process table headings.
pub open spec fn proc_table_sep() -> Seq<char> {
    "|-----+------------+---------+-----------+------------------------|"@
}

/// The bottom border of the process table.
pub open spec fn proc_table_bottom() -> Seq<char> {
    "+-----+------------+---------+-----------+------------------------+"@
}

/// The advisory recommendation line.
pub open spec fn advisory_first() -> Seq<char> {
    "Consider enabling persistence mode on your GPU(s) for faster response."@
}

/// The advisory documentation-reference line.
pub open spec fn advisory_second() -> Seq<char> {
    "For more information: https://docs.nvidia.com/deploy/driver-persistence/"@
}

/// The advisory lines: present exactly when some GPU lacks persistence
/// mode.
pub open spec fn advisory_lines(gpus: Seq<GpuView>) -> Seq<Seq<char>> {
    if missing_persistence(gpus) {
        seq![advisory_first(), advisory_second()]
    } else {
        Seq::<Seq<char>>::empty()
    }
}

/// The GPU table: borders, headings, then exactly one row per GPU in
/// input order, each marked running exactly when some process references
/// its uuid, then the divider.
pub open spec fn gpu_table_lines(gpus: Seq<GpuView>, procs: Seq<ProcessView>) -> Seq<Seq<char>> {
    seq![gpu_table_top(), gpu_table_head(), gpu_table_sep()] + Seq::new(
        gpus.len(),
        |i: int| gpu_row(gpus[i], any_process_on(procs, gpus[i].gpu_uuid)),
    ) + seq![table_divider()]
}

/// The process section: the notice block when no process runs, else the
/// process table with exactly one row per process in input order.
pub open spec fn process_section_lines(gpus: Seq<GpuView>, procs: Seq<ProcessView>) -> Seq<
    Seq<char>,
> {
    if procs.len() == 0 {
        seq![notice_line(), notice_bottom()]
    } else {
        seq![proc_table_head(), proc_table_sep()] + Seq::new(
            procs.len(),
            |i: int| proc_row(first_gpu_index(gpus, procs[i].gpu_uuid), procs[i]),
        ) + seq![proc_table_bottom()]
    }
}

/// The full report: the advisory when owed, the GPU table, then the
/// process section.
pub open spec fn report_lines(gpus: Seq<GpuView>, procs: Seq<ProcessView>) -> Seq<Seq<char>> {
    advisory_lines(gpus) + gpu_table_lines(gpus, procs) + process_section_lines(gpus, procs)
}

/// Renders the full report, one output line per element.
pub fn render_report(gpus: &Vec<GPU>, processes: &Vec<Process>) -> (lines: Vec<String>)
    ensures
        lines@.len() == report_lines(gpu_views(gpus@), proc_views(processes@)).len(),
        forall|i: int|
            0 <= i < lines@.len() ==> lines@[i]@ == report_lines(
                gpu_views(gpus@),
                proc_views(processes@),
            )[i],
{
    let ghost gvs = gpu_views(gpus@);
    let ghost pvs = proc_views(processes@);
    let ghost report = report_lines(gvs, pvs);
    let mut lines: Vec<String> = Vec::new();
    if any_missing_persistence_mode(gpus) {
        lines.push(
            String::from_str(
                "Consider enabling persistence mode on your GPU(s) for faster response.",
            ),
        );
        lines.push(
            String::from_str(
                "For more information: https://docs.nvidia.com/deploy/driver-persistence/",
            ),
        );
    }
    let ghost adv = advisory_lines(gvs).len() as int;
    lines.push(String::from_str("+----------------------------+------+-------------------+---------+"));
    lines.push(String::from_str("| GPU                        | %GPU | VRAM              | PROCESS |"));
    lines.push(String::from_str("|----------------------------+------+-------------------+---------|"));
    let mut i: usize = 0;
    while i < gpus.len()
        invariant
            i <= gpus@.len(),
            gvs == gpu_views(gpus@),
            pvs == proc_views(processes@),
            report == report_lines(gvs, pvs),
            adv == advisory_lines(gvs).len(),
            lines@.len() == adv + 3 + i,
            forall|j: int| 0 <= j < lines@.len() ==> lines@[j]@ == report[j],
        decreases gpus@.len() - i,
    {
        let g = &gpus[i];
        let run = gpu_running(processes, &g.gpu_uuid);
        let row = gpu_row_line(g, run);
        proof {
            assert(report[adv + 3 + i] == gpu_row(gvs[i as int], any_process_on(
                pvs,
                gvs[i as int].gpu_uuid,
            )));
            assert(gvs[i as int] == g@);
        }
        lines.push(row);
        i = i + 1;
    }
    lines.push(String::from_str("|=================================================================|"));
    proof {
        assert(report[adv + 3 + gvs.len()] == table_divider());
    }
    if processes.len() == 0 {
        lines.push(String::from_str("| No running processes found                                      |"));
        lines.push(String::from_str("+-----------------------------------------------------------------+"));
        proof {
            assert(report[adv + 4 + gvs.len()] == notice_line());
            assert(report[adv + 5 + gvs.len()] == notice_bottom());
            assert(lines@.len() == report.len());
        }
    } else {
        lines.push(String::from_str("| GPU | USER       | PID     | VRAM      | COMMAND                |"));
        lines.push(String::from_str("|-----+------------+---------+-----------+------------------------|"));
        proof {
            assert(report[adv + 4 + gvs.len()] == proc_table_head());
            assert(report[adv + 5 + gvs.len()] == proc_table_sep());
        }
        let mut k: usize = 0;
        while k < processes.len()
            invariant
                k <= processes@.len(),
                processes@.len() > 0,
                gvs == gpu_views(gpus@),
                pvs == proc_views(processes@),
                report == report_lines(gvs, pvs),
                adv == advisory_lines(gvs).len(),
                lines@.len() == adv + 6 + gvs.len() + k,
                forall|j: int| 0 <= j < lines@.len() ==> lines@[j]@ == report[j],
            decreases processes@.len() - k,
        {
            let p = &processes[k];
            let idx = find_gpu_index(gpus, &p.gpu_uuid);
            let row = proc_row_line(idx, p);
            proof {
                assert(report[adv + 6 + gvs.len() + k] == proc_row(
                    first_gpu_index(gvs, pvs[k as int].gpu_uuid),
                    pvs[k as int],
                ));
                assert(pvs[k as int] == p@);
            }
            lines.push(row);
            k = k + 1;
        }
        lines.push(String::from_str("+-----+------------+---------+-----------+------------------------+"));
        proof {
            assert(report[adv + 6 + gvs.len() + pvs.len()] == proc_table_bottom());
            assert(lines@.len() == report.len());
        }
    }
    lines
}


/// A number no greater than 255 renders in at most three digits, so its
/// right-aligned cell is exactly three characters wide.
proof fn lemma_small_index_cell(n: int)
    requires
        0 <= n <= 255,
    ensures
        pad_left(dec_str(n), 3).len() == 3,
{
    assert(pow10(0) == 1);
    assert(pow10(1) == 10);
    assert(pow10(2) == 100);
    assert(pow10(3) == 1000);
    lemma_dec_str_len(n, 3);
}

/// In a valid GPU's row the name cell starts at the seventh character,
/// with the opening parenthesis.
proof fn lemma_gpu_row_head(g: GpuView, running: bool)
    requires
        gpu_view_valid(g),
    ensures
        gpu_row(g, running)[6] == '(',
{
    reveal_strlit("| ");
    reveal_strlit(" ");
    lemma_small_index_cell(g.index);
    let paren = seq!['('] + g.name + seq![')'];
    assert(paren[0] == '(');
    assert(take_width(paren, 22)[0] == '(');
    assert(clip_left(paren, 22)[0] == '(');
    assert(("| "@ + pad_left(dec_str(g.index), 3) + " "@).len() == 6);
}

/// In a process row with a device index below 256, or the placeholder,
/// the seventh character is the border after the device cell.
proof fn lemma_proc_row_head(idx: Option<int>, p: ProcessView)
    requires
        match idx {
            Some(i) => 0 <= i <= 255,
            None => true,
        },
    ensures
        proc_row(idx, p)[6] == '|',
{
    reveal_strlit("| ");
    reveal_strlit(" | ");
    match idx {
        Some(i) => {
            lemma_small_index_cell(i);
        },
        None => {
            assert(pad_left(seq!['?'], 3).len() == 3);
        },
    }
    assert(gpu_index_cell(idx).len() == 3);
    assert(("| "@ + gpu_index_cell(idx)).len() == 5);
    assert(proc_row(idx, p)[6] == " | "@[1]);
}

/// The running marker and the idle placeholder give a GPU two different
/// rows: the status cell starts with `R` in one and `-` in the other.
proof fn lemma_row_marks_running(g: GpuView)
    ensures
        gpu_row(g, true) != gpu_row(g, false),
{
    reveal_strlit("RUNNING");
    reveal_strlit("-------");
    let pre = "| "@ + pad_left(dec_str(g.index), 3) + " "@ + clip_left(
        seq!['('] + g.name + seq![')'],
        22,
    ) + " | "@ + pad_left(dec_str(g.utilization_gpu), 3) + "% | "@ + pad_left(
        dec_str(g.memory_used),
        5,
    ) + " / "@ + pad_left(dec_str(g.memory_total), 5) + " MiB | "@;
    let n = pre.len() as int;
    assert(gpu_row(g, true)[n] == 'R');
    assert(gpu_row(g, false)[n] == '-');
}

/// For every GPU list and process list, the report holds exactly one
/// GPU-table row per GPU record, in input order, between the headings
/// and the divider.
pub proof fn law_one_gpu_row_per_record(gpus: Seq<GpuView>, procs: Seq<ProcessView>)
    ensures
        report_lines(gpus, procs).len() == advisory_lines(gpus).len() + 4 + gpus.len()
            + process_section_lines(gpus, procs).len(),
        forall|i: int|
            0 <= i < gpus.len() ==> report_lines(gpus, procs)[advisory_lines(gpus).len() + 3 + i]
                == gpu_row(gpus[i], any_process_on(procs, gpus[i].gpu_uuid)),
{
}

/// A process whose uuid matches a GPU's uuid makes that GPU's row the
/// running row; with no match it is the idle row, and the two rows
/// always differ.
pub proof fn law_running_indicator(gpus: Seq<GpuView>, procs: Seq<ProcessView>, i: int)
    requires
        0 <= i < gpus.len(),
    ensures
        report_lines(gpus, procs)[advisory_lines(gpus).len() + 3 + i] == gpu_row(
            gpus[i],
            any_process_on(procs, gpus[i].gpu_uuid),
        ),
        gpu_row(gpus[i], true) != gpu_row(gpus[i], false),
{
    lemma_row_marks_running(gpus[i]);
}

/// A process whose uuid no GPU carries still renders: its row stands in
/// the report, with the placeholder device cell of two spaces and a
/// question mark.
pub proof fn law_unknown_uuid_placeholder(gpus: Seq<GpuView>, procs: Seq<ProcessView>, j: int)
    requires
        0 <= j < procs.len(),
        forall|k: int| 0 <= k < gpus.len() ==> gpus[k].gpu_uuid != procs[j].gpu_uuid,
    ensures
        report_lines(gpus, procs)[advisory_lines(gpus).len() + 6 + gpus.len() + j] == proc_row(
            None,
            procs[j],
        ),
        gpu_index_cell(None) == seq![' ', ' ', '?'],
{
    lemma_first_gpu_index(gpus, procs[j].gpu_uuid);
    assert(!uuid_known(gpus, procs[j].gpu_uuid));
    assert(pad_left(seq!['?'], 3) =~= seq![' ', ' ', '?']);
}

/// A command shorter than the display width renders right-aligned and
/// padded, never indexed past its end; a longer one is truncated to
/// exactly that width. Either way the command cell is 22 wide.
pub proof fn law_command_width(p: ProcessView)
    ensures
        clip_right(p.command, 22).len() == 22,
        p.command.len() <= 22 ==> clip_right(p.command, 22) == crate::layout::spaces(
            22 - p.command.len(),
        ) + p.command,
        p.command.len() > 22 ==> clip_right(p.command, 22) == p.command.take(22),
{
    crate::layout::lemma_clip_exact(p.command, 22);
}

/// With no processes the report ends with the notice block, and the
/// notice line stands in the report exactly once, second to last; with
/// processes present no line of the report is the notice line.
pub proof fn law_notice_exactly_once(gpus: Seq<GpuView>, procs: Seq<ProcessView>)
    requires
        forall|k: int| 0 <= k < gpus.len() ==> gpu_view_valid(#[trigger] gpus[k]),
    ensures
        forall|i: int|
            0 <= i < report_lines(gpus, procs).len() ==> ((report_lines(gpus, procs)[i]
                == notice_line()) <==> (procs.len() == 0 && i == report_lines(
                gpus,
                procs,
            ).len() - 2)),
{
    let report = report_lines(gpus, procs);
    let a = advisory_lines(gpus).len() as int;
    reveal_strlit("| No running processes found                                      |");
    reveal_strlit("Consider enabling persistence mode on your GPU(s) for faster response.");
    reveal_strlit("For more information: https://docs.nvidia.com/deploy/driver-persistence/");
    reveal_strlit("+----------------------------+------+-------------------+---------+");
    reveal_strlit("| GPU                        | %GPU | VRAM              | PROCESS |");
    reveal_strlit("|----------------------------+------+-------------------+---------|");
    reveal_strlit("|=================================================================|");
    reveal_strlit("+-----------------------------------------------------------------+");
    reveal_strlit("| GPU | USER       | PID     | VRAM      | COMMAND                |");
    reveal_strlit("|-----+------------+---------+-----------+------------------------|");
    reveal_strlit("+-----+------------+---------+-----------+------------------------+");
    assert(notice_line()[0] == '|');
    assert(notice_line()[1] == ' ');
    assert(notice_line()[2] == 'N');
    assert(notice_line()[6] == 'u');
    assert forall|i: int| 0 <= i < report.len() implies ((report[i] == notice_line()) <==> (
    procs.len() == 0 && i == report.len() - 2)) by {
        let b = a + 4 + gpus.len() as int;
        if i < a {
            assert(missing_persistence(gpus));
            if i == 0 {
                assert(report[i][0] == 'C');
            } else {
                assert(report[i][0] == 'F');
            }
        } else if i == a {
            assert(report[i][0] == '+');
        } else if i == a + 1 {
            assert(report[i][2] == 'G');
        } else if i == a + 2 {
            assert(report[i][2] == '-');
        } else if i < a + 3 + gpus.len() {
            let k = i - (a + 3);
            assert(report[i] == gpu_row(gpus[k], any_process_on(procs, gpus[k].gpu_uuid)));
            lemma_gpu_row_head(gpus[k], any_process_on(procs, gpus[k].gpu_uuid));
            assert(report[i][6] == '(');
        } else if i == a + 3 + gpus.len() {
            assert(report[i][2] == '=');
        } else if procs.len() == 0 {
            if i == b {
                assert(report[i] == notice_line());
                assert(report.len() == b + 2);
            } else {
                assert(i == b + 1);
                assert(report[i][0] == '+');
            }
        } else {
            if i == b {
                assert(report[i][2] == 'G');
            } else if i == b + 1 {
                assert(report[i][2] == '-');
            } else if i < b + 2 + procs.len() {
                let k = i - (b + 2);
                let idx = first_gpu_index(gpus, procs[k].gpu_uuid);
                assert(report[i] == proc_row(idx, procs[k]));
                lemma_first_gpu_index(gpus, procs[k].gpu_uuid);
                match idx {
                    Some(dev) => {
                        let w = choose|w: int|
                            0 <= w < gpus.len() && gpus[w].gpu_uuid == procs[k].gpu_uuid
                                && gpus[w].index == dev;
                        assert(gpu_view_valid(gpus[w]));
                        lemma_proc_row_head(idx, procs[k]);
                    },
                    None => {
                        lemma_proc_row_head(idx, procs[k]);
                    },
                }
                assert(report[i][6] == '|');
            } else {
                assert(i == b + 2 + procs.len());
                assert(report[i][0] == '+');
            }
        }
    }
}

} // verus!
