//! The data model: one GPU record and one process record per telemetry
//! line, and the parse errors a malformed line can raise.

use vstd::prelude::*;
use crate::digits::{dec_val, is_dec, parse_u64};
use crate::text::{split_at_sep, split_chars, str_chars, trim_chars, trimmed};

verus! {

/// Why a telemetry line failed to parse.
#[derive(Clone, Copy, Debug, PartialEq, Eq, Structural)]
pub enum ParseError {
    /// The line does not hold the expected number of comma-separated fields.
    WrongFieldCount,
    /// A numeric field is empty, holds a non-digit, or overflows its type.
    BadNumber,
}

/// One physical GPU at snapshot time.
pub struct GPU {
    pub index: u8,
    pub gpu_uuid: String,
    pub name: String,
    pub memory_used: u32,
    pub memory_total: u32,
    pub utilization_gpu: u32,
    pub persistence_mode: bool,
}

/// The mathematical shadow of a `GPU`.
pub ghost struct GpuView {
    pub index: int,
    pub gpu_uuid: Seq<char>,
    pub name: Seq<char>,
    pub memory_used: int,
    pub memory_total: int,
    pub utilization_gpu: int,
    pub persistence_mode: bool,
}

impl View for GPU {
    type V = GpuView;

    open spec fn view(&self) -> GpuView {
        GpuView {
            index: self.index as int,
            gpu_uuid: self.gpu_uuid@,
            name: self.name@,
            memory_used: self.memory_used as int,
            memory_total: self.memory_total as int,
            utilization_gpu: self.utilization_gpu as int,
            persistence_mode: self.persistence_mode,
        }
    }
}

/// The bounds that every view of an executable `GPU` value meets.
pub open spec fn gpu_view_valid(g: GpuView) -> bool {
    &&& 0 <= g.index <= u8::MAX
    &&& 0 <= g.memory_used <= u32::MAX
    &&& 0 <= g.memory_total <= u32::MAX
    &&& 0 <= g.utilization_gpu <= u32::MAX
}

/// One process currently occupying GPU memory.
pub struct Process {
    pub gpu_uuid: String,
    pub pid: u32,
    pub used_gpu_memory: u32,
    pub user: String,
    pub command: String,
}

/// The mathematical shadow of a `Process`.
pub ghost struct ProcessView {
    pub gpu_uuid: Seq<char>,
    pub pid: int,
    pub used_gpu_memory: int,
    pub user: Seq<char>,
    pub command: Seq<char>,
}

impl View for Process {
    type V = ProcessView;

    open spec fn view(&self) -> ProcessView {
        ProcessView {
            gpu_uuid: self.gpu_uuid@,
            pid: self.pid as int,
            used_gpu_memory: self.used_gpu_memory as int,
            user: self.user@,
            command: self.command@,
        }
    }
}

/// The bounds that every view of an executable `Process` value meets.
pub open spec fn proc_view_valid(p: ProcessView) -> bool {
    &&& 0 <= p.pid <= u32::MAX
    &&& 0 <= p.used_gpu_memory <= u32::MAX
}

/// The comma-separated fields of a line, each with surrounding whitespace
/// removed.
pub open spec fn line_fields(s: Seq<char>) -> Seq<Seq<char>> {
    split_at_sep(s, ',').map_values(|f: Seq<char>| trimmed(f))
}

/// What parsing a GPU line yields: a record exactly when the line has
/// seven fields and the four numeric fields are well-formed decimals
/// within range, the index in a `u8` and the rest in a `u32`; the
/// persistence flag is set exactly when the trimmed field is `Enabled`.
pub open spec fn spec_parse_gpu(s: Seq<char>) -> Result<GpuView, ParseError> {
    let fs = line_fields(s);
    if fs.len() != 7 {
        Err(ParseError::WrongFieldCount)
    } else if !(is_dec(fs[0], u8::MAX as int) && is_dec(fs[3], u32::MAX as int) && is_dec(
        fs[4],
        u32::MAX as int,
    ) && is_dec(fs[5], u32::MAX as int)) {
        Err(ParseError::BadNumber)
    } else {
        Ok(
            GpuView {
                index: dec_val(fs[0]),
                gpu_uuid: fs[1],
                name: fs[2],
                memory_used: dec_val(fs[3]),
                memory_total: dec_val(fs[4]),
                utilization_gpu: dec_val(fs[5]),
                persistence_mode: fs[6] == "Enabled"@,
            },
        )
    }
}

/// What parsing a process line yields: a record exactly when the line has
/// three fields and the two numeric fields are well-formed decimals that
/// fit in a `u32`. The user and command fields start empty; an external
/// lookup fills them afterwards.
pub open spec fn spec_parse_process(s: Seq<char>) -> Result<ProcessView, ParseError> {
    let fs = line_fields(s);
    if fs.len() != 3 {
        Err(ParseError::WrongFieldCount)
    } else if !(is_dec(fs[1], u32::MAX as int) && is_dec(fs[2], u32::MAX as int)) {
        Err(ParseError::BadNumber)
    } else {
        Ok(
            ProcessView {
                gpu_uuid: fs[0],
                pid: dec_val(fs[1]),
                used_gpu_memory: dec_val(fs[2]),
                user: Seq::<char>::empty(),
                command: Seq::<char>::empty(),
            },
        )
    }
}

/// The views of a GPU list.
pub open spec fn gpu_views(gs: Seq<GPU>) -> Seq<GpuView> {
    gs.map_values(|g: GPU| g@)
}

/// The views of a process list.
pub open spec fn proc_views(ps: Seq<Process>) -> Seq<ProcessView> {
    ps.map_values(|p: Process| p@)
}

/// The lines of captured provider output: split on the newline character,
/// with a trailing empty line discarded.
pub open spec fn split_lines(s: Seq<char>) -> Seq<Seq<char>> {
    let parts = split_at_sep(s, '\n');
    if parts.len() > 0 && parts.last().len() == 0 {
        parts.drop_last()
    } else {
        parts
    }
}

/// What parsing a sequence of GPU lines yields: every record in line
/// order, or the error of the first line that fails.
pub open spec fn spec_parse_gpu_list(lines: Seq<Seq<char>>) -> Result<Seq<GpuView>, ParseError>
    decreases lines.len(),
{
    if lines.len() == 0 {
        Ok(Seq::<GpuView>::empty())
    } else {
        match spec_parse_gpu(lines[0]) {
            Err(e) => Err(e),
            Ok(g) => match spec_parse_gpu_list(lines.drop_first()) {
                Err(e) => Err(e),
                Ok(rest) => Ok(seq![g] + rest),
            },
        }
    }
}

/// What parsing a whole GPU query output yields.
pub open spec fn spec_parse_gpus(s: Seq<char>) -> Result<Seq<GpuView>, ParseError> {
    spec_parse_gpu_list(split_lines(s))
}

/// What parsing a sequence of process lines yields: every record in line
/// order, or the error of the first line that fails.
pub open spec fn spec_parse_process_list(lines: Seq<Seq<char>>) -> Result<
    Seq<ProcessView>,
    ParseError,
>
    decreases lines.len(),
{
    if lines.len() == 0 {
        Ok(Seq::<ProcessView>::empty())
    } else {
        match spec_parse_process(lines[0]) {
            Err(e) => Err(e),
            Ok(p) => match spec_parse_process_list(lines.drop_first()) {
                Err(e) => Err(e),
                Ok(rest) => Ok(seq![p] + rest),
            },
        }
    }
}

/// What parsing a whole process query output yields.
pub open spec fn spec_parse_processes(s: Seq<char>) -> Result<Seq<ProcessView>, ParseError> {
    spec_parse_process_list(split_lines(s))
}

/// Parses one trimmed field as a decimal no greater than `max`.
fn parse_bounded(f: &Vec<char>, max: u64) -> (r: Result<u64, ParseError>)
    ensures
        match r {
            Ok(n) => is_dec(f@, max as int) && n as int == dec_val(f@) && n <= max,
            Err(e) => e == ParseError::BadNumber && !is_dec(f@, max as int),
        },
{
    match parse_u64(f) {
        Ok(n) => {
            if n > max {
                Err(ParseError::BadNumber)
            } else {
                Ok(n)
            }
        },
        Err(e) => Err(e),
    }
}

impl GPU {
    /// Parses one comma-separated telemetry line into a GPU record.
    pub fn from_line(line: &str) -> (r: Result<GPU, ParseError>)
        ensures
            match r {
                Ok(g) => spec_parse_gpu(line@) == Ok::<GpuView, ParseError>(g@),
                Err(e) => spec_parse_gpu(line@) == Err::<GpuView, ParseError>(e),
            },
    {
        let chars = str_chars(line);
        GPU::from_chars(&chars)
    }

    /// Parses one telemetry line, given as its characters.
    pub fn from_chars(chars: &Vec<char>) -> (r: Result<GPU, ParseError>)
        ensures
            match r {
                Ok(g) => spec_parse_gpu(chars@) == Ok::<GpuView, ParseError>(g@),
                Err(e) => spec_parse_gpu(chars@) == Err::<GpuView, ParseError>(e),
            },
    {
        let raw = split_chars(chars, ',');
        if raw.len() != 7 {
            return Err(ParseError::WrongFieldCount);
        }
        let f0 = trim_chars(&raw[0]);
        let f1 = trim_chars(&raw[1]);
        let f2 = trim_chars(&raw[2]);
        let f3 = trim_chars(&raw[3]);
        let f4 = trim_chars(&raw[4]);
        let f5 = trim_chars(&raw[5]);
        let f6 = trim_chars(&raw[6]);
        proof {
            assert(line_fields(chars@)[0] == f0@);
            assert(line_fields(chars@)[1] == f1@);
            assert(line_fields(chars@)[2] == f2@);
            assert(line_fields(chars@)[3] == f3@);
            assert(line_fields(chars@)[4] == f4@);
            assert(line_fields(chars@)[5] == f5@);
            assert(line_fields(chars@)[6] == f6@);
        }
        let index = match parse_bounded(&f0, u8::MAX as u64) {
            Ok(n) => n as u8,
            Err(e) => {
                return Err(e);
            },
        };
        let memory_used = match parse_bounded(&f3, u32::MAX as u64) {
            Ok(n) => n as u32,
            Err(e) => {
                return Err(e);
            },
        };
        let memory_total = match parse_bounded(&f4, u32::MAX as u64) {
            Ok(n) => n as u32,
            Err(e) => {
                return Err(e);
            },
        };
        let utilization_gpu = match parse_bounded(&f5, u32::MAX as u64) {
            Ok(n) => n as u32,
            Err(e) => {
                return Err(e);
            },
        };
        let enabled = str_chars("Enabled");
        let persistence_mode = crate::text::eq_chars(&f6, &enabled);
        Ok(
            GPU {
                index,
                gpu_uuid: crate::text::chars_to_string(&f1),
                name: crate::text::chars_to_string(&f2),
                memory_used,
                memory_total,
                utilization_gpu,
                persistence_mode,
            },
        )
    }
}

impl Process {
    /// Parses one comma-separated telemetry line into a process record
    /// whose user and command fields are still empty.
    pub fn from_line(line: &str) -> (r: Result<Process, ParseError>)
        ensures
            match r {
                Ok(p) => spec_parse_process(line@) == Ok::<ProcessView, ParseError>(p@),
                Err(e) => spec_parse_process(line@) == Err::<ProcessView, ParseError>(e),
            },
    {
        let chars = str_chars(line);
        Process::from_chars(&chars)
    }

    /// Parses one telemetry line, given as its characters.
    pub fn from_chars(chars: &Vec<char>) -> (r: Result<Process, ParseError>)
        ensures
            match r {
                Ok(p) => spec_parse_process(chars@) == Ok::<ProcessView, ParseError>(p@),
                Err(e) => spec_parse_process(chars@) == Err::<ProcessView, ParseError>(e),
            },
    {
        let raw = split_chars(chars, ',');
        if raw.len() != 3 {
            return Err(ParseError::WrongFieldCount);
        }
        let f0 = trim_chars(&raw[0]);
        let f1 = trim_chars(&raw[1]);
        let f2 = trim_chars(&raw[2]);
        proof {
            assert(line_fields(chars@)[0] == f0@);
            assert(line_fields(chars@)[1] == f1@);
            assert(line_fields(chars@)[2] == f2@);
        }
        let pid = match parse_bounded(&f1, u32::MAX as u64) {
            Ok(n) => n as u32,
            Err(e) => {
                return Err(e);
            },
        };
        let used_gpu_memory = match parse_bounded(&f2, u32::MAX as u64) {
            Ok(n) => n as u32,
            Err(e) => {
                return Err(e);
            },
        };
        Ok(
            Process {
                gpu_uuid: crate::text::chars_to_string(&f0),
                pid,
                used_gpu_memory,
                user: String::new(),
                command: String::new(),
            },
        )
    }

    /// Fills in the externally looked-up user and command, each with its
    /// surrounding whitespace removed; every other field is kept.
    pub fn with_lookup(self, user: &str, command: &str) -> (p: Process)
        ensures
            p@ == (ProcessView { user: trimmed(user@), command: trimmed(command@), ..self@ }),
    {
        let u = trim_chars(&str_chars(user));
        let c = trim_chars(&str_chars(command));
        Process {
            user: crate::text::chars_to_string(&u),
            command: crate::text::chars_to_string(&c),
            ..self
        }
    }
}

impl ParseError {
    /// A short diagnostic for reporting the error.
    pub fn message(&self) -> (s: String)
        ensures
            *self is WrongFieldCount ==> s@ == "unexpected field count in telemetry line"@,
            *self is BadNumber ==> s@ == "malformed numeric field in telemetry line"@,
    {
        match self {
            ParseError::WrongFieldCount => String::from_str(
                "unexpected field count in telemetry line",
            ),
            ParseError::BadNumber => String::from_str("malformed numeric field in telemetry line"),
        }
    }
}

/// Splits captured provider output into lines, a trailing empty line
/// discarded.
fn text_lines(text: &str) -> (r: Vec<Vec<char>>)
    ensures
        r@.len() == split_lines(text@).len(),
        forall|j: int| 0 <= j < r@.len() ==> r@[j]@ == split_lines(text@)[j],
{
    let chars = str_chars(text);
    let mut raw = split_chars(&chars, '\n');
    proof {
        crate::text::lemma_split_at_sep_len(text@, '\n');
    }
    let last: usize = raw.len() - 1;
    if raw[last].len() == 0 {
        raw.pop();
    }
    raw
}

/// Parses a whole GPU query output: every line in order, or the error of
/// the first malformed line.
pub fn parse_gpu_lines(text: &str) -> (r: Result<Vec<GPU>, ParseError>)
    ensures
        match r {
            Ok(gs) => spec_parse_gpus(text@) == Ok::<Seq<GpuView>, ParseError>(gpu_views(gs@)),
            Err(e) => spec_parse_gpus(text@) == Err::<Seq<GpuView>, ParseError>(e),
        },
{
    let lines = text_lines(text);
    let ghost lvs = split_lines(text@);
    let mut out: Vec<GPU> = Vec::new();
    let mut i: usize = 0;
    proof {
        assert(lvs.skip(0) =~= lvs);
        match spec_parse_gpu_list(lvs) {
            Ok(all) => {
                assert(gpu_views(out@) + all =~= all);
            },
            Err(e) => {},
        }
    }
    while i < lines.len()
        invariant
            lvs == split_lines(text@),
            i <= lines@.len(),
            lines@.len() == lvs.len(),
            forall|j: int| 0 <= j < lines@.len() ==> lines@[j]@ == lvs[j],
            spec_parse_gpu_list(lvs) == (match spec_parse_gpu_list(lvs.skip(i as int)) {
                Ok(rest) => Ok::<Seq<GpuView>, ParseError>(gpu_views(out@) + rest),
                Err(e) => Err::<Seq<GpuView>, ParseError>(e),
            }),
        decreases lines@.len() - i,
    {
        proof {
            assert(lvs.skip(i as int)[0] == lvs[i as int]);
            assert(lvs.skip(i as int).drop_first() =~= lvs.skip(i + 1 as int));
        }
        let ghost out0 = out@;
        match GPU::from_chars(&lines[i]) {
            Err(e) => {
                proof {
                    assert(spec_parse_gpu(lvs.skip(i as int)[0]) == Err::<GpuView, ParseError>(e));
                    assert(spec_parse_gpu_list(lvs.skip(i as int)) == Err::<
                        Seq<GpuView>,
                        ParseError,
                    >(e));
                }
                return Err(e);
            },
            Ok(g) => {
                out.push(g);
                proof {
                    assert(gpu_views(out@) =~= gpu_views(out0).push(g@));
                    match spec_parse_gpu_list(lvs.skip(i + 1)) {
                        Ok(rest) => {
                            assert(gpu_views(out0) + (seq![g@] + rest) =~= gpu_views(out@) + rest);
                        },
                        Err(e) => {},
                    }
                }
            },
        }
        i = i + 1;
    }
    proof {
        assert(lvs.skip(lvs.len() as int) =~= Seq::<Seq<char>>::empty());
        assert(gpu_views(out@) + Seq::<GpuView>::empty() =~= gpu_views(out@));
    }
    Ok(out)
}

/// Parses a whole process query output: every line in order, or the
/// error of the first malformed line. The records still carry empty user
/// and command fields.
pub fn parse_process_lines(text: &str) -> (r: Result<Vec<Process>, ParseError>)
    ensures
        match r {
            Ok(ps) => spec_parse_processes(text@) == Ok::<Seq<ProcessView>, ParseError>(
                proc_views(ps@),
            ),
            Err(e) => spec_parse_processes(text@) == Err::<Seq<ProcessView>, ParseError>(e),
        },
{
    let lines = text_lines(text);
    let ghost lvs = split_lines(text@);
    let mut out: Vec<Process> = Vec::new();
    let mut i: usize = 0;
    proof {
        assert(lvs.skip(0) =~= lvs);
        match spec_parse_process_list(lvs) {
            Ok(all) => {
                assert(proc_views(out@) + all =~= all);
            },
            Err(e) => {},
        }
    }
    while i < lines.len()
        invariant
            lvs == split_lines(text@),
            i <= lines@.len(),
            lines@.len() == lvs.len(),
            forall|j: int| 0 <= j < lines@.len() ==> lines@[j]@ == lvs[j],
            spec_parse_process_list(lvs) == (match spec_parse_process_list(lvs.skip(i as int)) {
                Ok(rest) => Ok::<Seq<ProcessView>, ParseError>(proc_views(out@) + rest),
                Err(e) => Err::<Seq<ProcessView>, ParseError>(e),
            }),
        decreases lines@.len() - i,
    {
        proof {
            assert(lvs.skip(i as int)[0] == lvs[i as int]);
            assert(lvs.skip(i as int).drop_first() =~= lvs.skip(i + 1 as int));
        }
        let ghost out0 = out@;
        match Process::from_chars(&lines[i]) {
            Err(e) => {
                proof {
                    assert(spec_parse_process(lvs.skip(i as int)[0]) == Err::<
                        ProcessView,
                        ParseError,
                    >(e));
                    assert(spec_parse_process_list(lvs.skip(i as int)) == Err::<
                        Seq<ProcessView>,
                        ParseError,
                    >(e));
                }
                return Err(e);
            },
            Ok(p) => {
                out.push(p);
                proof {
                    assert(proc_views(out@) =~= proc_views(out0).push(p@));
                    match spec_parse_process_list(lvs.skip(i + 1)) {
                        Ok(rest) => {
                            assert(proc_views(out0) + (seq![p@] + rest) =~= proc_views(out@)
                                + rest);
                        },
                        Err(e) => {},
                    }
                }
            },
        }
        i = i + 1;
    }
    proof {
        assert(lvs.skip(lvs.len() as int) =~= Seq::<Seq<char>>::empty());
        assert(proc_views(out@) + Seq::<ProcessView>::empty() =~= proc_views(out@));
    }
    Ok(out)
}

} // verus!
