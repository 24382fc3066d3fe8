//! The processes of the machine, from the output of the program that lists them.
use vstd::prelude::*;
use vstd::string::*;

use crate::failure::{Failure, FailureView};
use crate::http::lossy_text;
use crate::json::{Json, JsonNumber, JsonView, NumberView};
use crate::numbers::parse_u32;
use crate::parse::parse_json;
use crate::text::{chars_of, contains, lines, substring, trim, trim_start, word_end};

verus! {

/// A running process.
#[derive(Debug, PartialEq, Eq)]
pub struct ProcessInfo {
    pub pid: u32,
    pub cmd: String,
}

/// What a [`ProcessInfo`] holds.
pub struct ProcessView {
    pub pid: u32,
    pub cmd: Seq<char>,
}

impl View for ProcessInfo {
    type V = ProcessView;

    open spec fn view(&self) -> ProcessView {
        ProcessView { pid: self.pid, cmd: self.cmd@ }
    }
}

/// The views of a list of processes.
pub open spec fn process_views(v: Seq<ProcessInfo>) -> Seq<ProcessView> {
    Seq::new(v.len(), |i: int| v[i]@)
}

/// One row of the process table that `Get-CimInstance` reports.
#[derive(Debug, PartialEq, Eq)]
pub struct RawProcess {
    pub name: Option<String>,
    pub process_id: Option<Json>,
    pub command_line: Option<String>,
    pub executable_path: Option<String>,
}

/// What a [`RawProcess`] holds.
pub struct RowView {
    pub name: Option<Seq<char>>,
    pub process_id: Option<JsonView>,
    pub command_line: Option<Seq<char>>,
    pub executable_path: Option<Seq<char>>,
}

impl View for RawProcess {
    type V = RowView;

    open spec fn view(&self) -> RowView {
        RowView {
            name: crate::text::opt_view(self.name),
            process_id: crate::json::opt_json_view(self.process_id),
            command_line: crate::text::opt_view(self.command_line),
            executable_path: crate::text::opt_view(self.executable_path),
        }
    }
}

/// The views of a list of rows.
pub open spec fn row_views(v: Seq<RawProcess>) -> Seq<RowView> {
    Seq::new(v.len(), |i: int| v[i]@)
}

/// Where the processes of the machine are listed.
#[derive(Debug, PartialEq, Eq)]
pub enum Listing {
    /// The rows that `Get-CimInstance` reports on Windows (see [`cim_output`]).
    Cim(Vec<RawProcess>),
    /// What `ps -Awwo pid=,command=` prints on macOS. `-A` lists all users, `-ww` disables column
    /// truncation so long Unity command lines survive intact, and `pid=`/`command=` suppress the
    /// header so we can parse a stable two-column layout.
    Ps(Vec<u8>),
    /// Nowhere, on another system.
    Unsupported,
}

// ---------------------------------------------------------------------------
// Small letters
// ---------------------------------------------------------------------------
/// What `str::to_lowercase` makes of a text.
pub uninterp spec fn lowercase(s: Seq<char>) -> Seq<char>;

/// `str::to_lowercase`: the text in small letters, by the tables of Unicode.
#[verifier::external_body]
fn to_lowercase(s: &str) -> (r: String)
    ensures
        r@ == lowercase(s@),
{
    s.to_lowercase()
}

/// Of a process, given the text that is searched and what is searched for, both in small letters:
/// the process where it is found.
pub open spec fn found_process(
    process: Option<ProcessView>,
    haystack: Seq<char>,
    needle: Seq<char>,
) -> Option<ProcessView> {
    match process {
        Some(p) => if crate::text::contains_seq(haystack, needle) {
            Some(p)
        } else {
            None
        },
        None => None,
    }
}

/// The view of an optional process.
pub open spec fn opt_process(p: Option<ProcessInfo>) -> Option<ProcessView> {
    match p {
        Some(x) => Some(x@),
        None => None,
    }
}

/// Keep a process where the text that is searched holds what is searched for, both in small
/// letters.
pub fn keep_found(process: Option<ProcessInfo>, haystack: &str, needle: &str) -> (r: Option<
    ProcessInfo,
>)
    ensures
        opt_process(r) == found_process(opt_process(process), haystack@, needle@),
{
    match process {
        Some(p) => if contains(haystack, needle) {
            Some(p)
        } else {
            None
        },
        None => None,
    }
}

// ---------------------------------------------------------------------------
// Windows
// ---------------------------------------------------------------------------
/// What `Get-CimInstance ... | ConvertTo-Json` printed: nothing that lists processes, a single
/// object, or an array of them.
#[derive(Debug, PartialEq, Eq)]
pub enum CimOutput {
    Empty,
    One(Json),
    Many(Json),
}

/// What a [`CimOutput`] holds.
pub enum CimView {
    Empty,
    One(JsonView),
    Many(JsonView),
}

impl View for CimOutput {
    type V = CimView;

    open spec fn view(&self) -> CimView {
        match self {
            CimOutput::Empty => CimView::Empty,
            CimOutput::One(v) => CimView::One(v@),
            CimOutput::Many(v) => CimView::Many(v@),
        }
    }
}

/// What a value lists.
pub open spec fn cim_value(v: JsonView) -> CimView {
    match v {
        JsonView::Array(_) => CimView::Many(v),
        JsonView::Object(_) => CimView::One(v),
        _ => CimView::Empty,
    }
}

/// What a text without white space around it lists, or the message of the error.
pub open spec fn cim_text(trimmed: Seq<char>) -> Result<CimView, FailureView> {
    if trimmed.len() == 0 {
        Ok(CimView::Empty)
    } else {
        match crate::parse::parsed_json(trimmed) {
            Ok(v) => Ok(cim_value(v)),
            Err(e) => Err(
                FailureView::Message("failed to parse Get-CimInstance JSON output: "@ + e),
            ),
        }
    }
}

/// The view of an outcome.
pub open spec fn cim_outcome(r: Result<CimOutput, Failure>) -> Result<CimView, FailureView> {
    match r {
        Ok(v) => Ok(v@),
        Err(e) => Err(e@),
    }
}

/// What a value lists.
pub fn cim_rows(parsed: Json) -> (r: CimOutput)
    ensures
        r@ == cim_value(parsed@),
{
    broadcast use {crate::json::lemma_object_view, crate::json::lemma_array_view};

    match parsed {
        Json::Array(a) => CimOutput::Many(Json::Array(a)),
        Json::Object(o) => CimOutput::One(Json::Object(o)),
        _ => CimOutput::Empty,
    }
}

/// What the output of `Get-CimInstance` lists.
pub fn cim_output(stdout: &[u8]) -> (r: Result<CimOutput, Failure>)
    ensures
        cim_outcome(r) == cim_text(crate::text::trim_of(crate::http::utf8_lossy(stdout@))),
{
    let text = lossy_text(stdout);
    let trimmed = trim(text.as_str());
    if trimmed.as_str().is_empty() {
        return Ok(CimOutput::Empty);
    }
    match parse_json(trimmed.as_str()) {
        Ok(v) => Ok(cim_rows(v)),
        Err(e) => {
            let mut message = "failed to parse Get-CimInstance JSON output: ".to_owned();
            message.append(e.as_str());
            Err(Failure::Message(message))
        },
    }
}

/// The process id in a row; 0 where it has none. A number is cut to 32 bits.
pub open spec fn row_pid(id: Option<JsonView>) -> u32 {
    match id {
        Some(JsonView::Number(NumberView::Unsigned(n))) => (n % 0x1_0000_0000) as u32,
        Some(JsonView::Str(s)) => match crate::numbers::parse_unsigned(s, 10, u32::MAX as nat) {
            Some(v) => v as u32,
            None => 0,
        },
        _ => 0,
    }
}

/// The process of a row, where the row has a process id.
pub open spec fn row_process(row: RowView) -> Option<ProcessView> {
    if row_pid(row.process_id) == 0 {
        None
    } else {
        Some(
            ProcessView {
                pid: row_pid(row.process_id),
                cmd: crate::pipeline::or_empty(row.command_line),
            },
        )
    }
}

/// The text of a row that is searched: the name, the path and the command line.
pub open spec fn row_text(row: RowView) -> Seq<char> {
    crate::pipeline::or_empty(row.name) + "\n"@ + crate::pipeline::or_empty(row.executable_path)
        + "\n"@ + crate::pipeline::or_empty(row.command_line)
}

/// The processes of the first `n` rows in which `pattern` is found.
pub open spec fn processes_in_rows(rows: Seq<RowView>, pattern: Seq<char>, n: nat) -> Seq<
    ProcessView,
>
    decreases n,
{
    if n == 0 || n > rows.len() {
        seq![]
    } else {
        let before = processes_in_rows(rows, pattern, (n - 1) as nat);
        match found_process(
            row_process(rows[n - 1]),
            lowercase(row_text(rows[n - 1])),
            lowercase(pattern),
        ) {
            Some(p) => before.push(p),
            None => before,
        }
    }
}

/// The string, or the empty one.
fn text_of(s: &Option<String>) -> (r: &str)
    ensures
        r@ == crate::pipeline::or_empty(crate::text::opt_view(*s)),
{
    match s {
        Some(t) => t.as_str(),
        None => {
            proof {
                reveal_strlit("");
                assert(""@ =~= seq![]);
            }
            ""
        },
    }
}

/// The process id in a row; 0 where it has none.
fn pid_of(id: &Option<Json>) -> (r: u32)
    ensures
        r == row_pid(crate::json::opt_json_view(*id)),
{
    match id {
        Some(Json::Number(JsonNumber::Unsigned(n))) => (*n % 0x1_0000_0000) as u32,
        Some(Json::Str(s)) => match parse_u32(s.as_str()) {
            Some(v) => v,
            None => 0,
        },
        _ => 0,
    }
}

/// The process of a row, where the row has a process id.
pub fn process_of_row(row: &RawProcess) -> (r: Option<ProcessInfo>)
    ensures
        opt_process(r) == row_process(row@),
{
    let pid: u32 = pid_of(&row.process_id);
    if pid == 0 {
        return None;
    }
    Some(ProcessInfo { pid, cmd: text_of(&row.command_line).to_owned() })
}

/// The processes in whose row `pattern` is found: a case-insensitive substring of the name, the
/// path or the command line.
fn find_in_rows(pattern: &str, rows: &Vec<RawProcess>) -> (r: Vec<ProcessInfo>)
    ensures
        process_views(r@) == processes_in_rows(row_views(rows@), pattern@, rows@.len()),
{
    let needle = to_lowercase(pattern);
    let ghost all = row_views(rows@);
    let mut out: Vec<ProcessInfo> = Vec::new();
    let mut i: usize = 0;
    assert(process_views(out@) =~= processes_in_rows(all, pattern@, 0));
    while i < rows.len()
        invariant
            i <= rows@.len(),
            all == row_views(rows@),
            needle@ == lowercase(pattern@),
            process_views(out@) == processes_in_rows(all, pattern@, i as nat),
        decreases rows@.len() - i,
    {
        let row = &rows[i];
        let mut text = text_of(&row.name).to_owned();
        text.append("\n");
        text.append(text_of(&row.executable_path));
        text.append("\n");
        text.append(text_of(&row.command_line));
        let haystack = to_lowercase(text.as_str());
        let ghost before = out@;
        match keep_found(process_of_row(row), haystack.as_str(), needle.as_str()) {
            Some(p) => {
                out.push(p);
                assert(process_views(out@) =~= process_views(before).push(p@));
            },
            None => {},
        }
        i = i + 1;
    }
    out
}

// ---------------------------------------------------------------------------
// macOS
// ---------------------------------------------------------------------------
/// The process on a line: the id up to the first white space, then the command line.
pub open spec fn line_process(line: Seq<char>) -> Option<ProcessView> {
    let trimmed = crate::text::trim_start_of(line);
    let split = crate::text::skip_word(trimmed, 0);
    let cmd = if split < trimmed.len() {
        crate::text::trim_of(trimmed.skip(split + 1))
    } else {
        seq![]
    };
    match crate::numbers::parse_unsigned(trimmed.take(split), 10, u32::MAX as nat) {
        Some(pid) => if pid > 0 && cmd.len() > 0 {
            Some(ProcessView { pid: pid as u32, cmd })
        } else {
            None
        },
        None => None,
    }
}

/// The processes of the first `n` lines in whose command line `pattern` is found.
pub open spec fn processes_in_lines(all: Seq<Seq<char>>, pattern: Seq<char>, n: nat) -> Seq<
    ProcessView,
>
    decreases n,
{
    if n == 0 || n > all.len() {
        seq![]
    } else {
        let before = processes_in_lines(all, pattern, (n - 1) as nat);
        match line_process(all[n - 1]) {
            Some(p) => match found_process(Some(p), lowercase(p.cmd), lowercase(pattern)) {
                Some(q) => before.push(q),
                None => before,
            },
            None => before,
        }
    }
}

/// The process on a line.
pub fn process_of_line(line: &str) -> (r: Option<ProcessInfo>)
    ensures
        opt_process(r) == line_process(line@),
{
    let trimmed = trim_start(line);
    let cs = chars_of(trimmed.as_str());
    // Split into `<pid> <command line>` on the first white space.
    let split: usize = word_end(&cs, 0);
    let n: usize = cs.len();
    let cmd = if split < n {
        let rest = substring(&cs, split + 1, n);
        assert(rest@ =~= cs@.skip(split + 1));
        trim(rest.as_str())
    } else {
        String::new()
    };
    assert(cs@.subrange(0, split as int) =~= cs@.take(split as int));
    match parse_u32(substring(&cs, 0, split).as_str()) {
        Some(pid) => if pid > 0 && !cmd.as_str().is_empty() {
            Some(ProcessInfo { pid, cmd })
        } else {
            None
        },
        None => None,
    }
}

/// The processes in whose command line `pattern` is found, from what `ps` prints.
fn find_in_ps(pattern: &str, stdout: &[u8]) -> (r: Vec<ProcessInfo>)
    ensures
        process_views(r@) == ({
            let all = crate::text::lines_of(crate::http::utf8_lossy(stdout@));
            processes_in_lines(all, pattern@, all.len())
        }),
{
    let text = lossy_text(stdout);
    let all = lines(text.as_str());
    let ghost every = crate::text::lines_of(text@);
    assert(crate::text::views(all@).len() == all@.len());
    let needle = to_lowercase(pattern);
    let mut out: Vec<ProcessInfo> = Vec::new();
    let mut i: usize = 0;
    assert(process_views(out@) =~= processes_in_lines(every, pattern@, 0));
    while i < all.len()
        invariant
            i <= all@.len(),
            all@.len() == every.len(),
            every == crate::text::views(all@),
            needle@ == lowercase(pattern@),
            process_views(out@) == processes_in_lines(every, pattern@, i as nat),
        decreases all@.len() - i,
    {
        let ghost before = out@;
        assert(every[i as int] == all@[i as int]@);
        match process_of_line(all[i].as_str()) {
            Some(p) => {
                let haystack = to_lowercase(p.cmd.as_str());
                match keep_found(Some(p), haystack.as_str(), needle.as_str()) {
                    Some(q) => {
                        out.push(q);
                        assert(process_views(out@) =~= process_views(before).push(q@));
                    },
                    None => {},
                }
            },
            None => {},
        }
        i = i + 1;
    }
    out
}

// ---------------------------------------------------------------------------
// Search
// ---------------------------------------------------------------------------
/// The processes of a listing in which `pattern` is found.
pub open spec fn processes_found(listing: Listing, pattern: Seq<char>) -> Result<
    Seq<ProcessView>,
    FailureView,
> {
    match listing {
        Listing::Cim(rows) => Ok(processes_in_rows(row_views(rows@), pattern, rows@.len())),
        Listing::Ps(stdout) => {
            let all = crate::text::lines_of(crate::http::utf8_lossy(stdout@));
            Ok(processes_in_lines(all, pattern, all.len()))
        },
        Listing::Unsupported => Err(
            FailureView::Message(
                "process discovery is only implemented for Windows and macOS in this build"@,
            ),
        ),
    }
}

/// The view of an outcome.
pub open spec fn processes_outcome(r: Result<Vec<ProcessInfo>, Failure>) -> Result<
    Seq<ProcessView>,
    FailureView,
> {
    match r {
        Ok(v) => Ok(process_views(v@)),
        Err(e) => Err(e@),
    }
}

/// Find all processes of a listing whose name contains `pattern` (case-insensitive substring).
pub fn find_processes_by_name(pattern: &str, listing: &Listing) -> (r: Result<
    Vec<ProcessInfo>,
    Failure,
>)
    ensures
        processes_outcome(r) == processes_found(*listing, pattern@),
{
    match listing {
        Listing::Cim(rows) => Ok(find_in_rows(pattern, rows)),
        Listing::Ps(stdout) => Ok(find_in_ps(pattern, stdout.as_slice())),
        Listing::Unsupported => Err(
            Failure::new(
                "process discovery is only implemented for Windows and macOS in this build",
            ),
        ),
    }
}

/// The failure of a program that lists processes, from how it ended and what it printed.
pub fn listing_failure(program: &str, status: &str, stderr: &[u8]) -> (r: Failure)
    ensures
        r@ == FailureView::Message(
            program@ + " exited with status "@ + status@ + ": "@ + crate::text::trim_of(
                crate::http::utf8_lossy(stderr@),
            ),
        ),
{
    let mut message = program.to_owned();
    message.append(" exited with status ");
    message.append(status);
    message.append(": ");
    message.append(trim(lossy_text(stderr).as_str()).as_str());
    Failure::Message(message)
}

// ---------------------------------------------------------------------------
// The working directory of a process
// ---------------------------------------------------------------------------
/// The directory that the lines of `lsof` from `from` on name.
pub open spec fn directory_from(all: Seq<Seq<char>>, from: int) -> Option<Seq<char>>
    decreases all.len() - from,
{
    if 0 <= from < all.len() {
        let rest = crate::text::strip_prefix_of(all[from], "n"@);
        if rest is Some && crate::text::trim_of(rest->0).len() > 0 {
            Some(crate::text::trim_of(rest->0))
        } else {
            directory_from(all, from + 1)
        }
    } else {
        None
    }
}

/// The working directory of a process, from what `lsof -a -p PID -d cwd -Fn` prints: the first
/// line that starts with `n` and names something.
pub fn working_directory(stdout: &[u8]) -> (r: Option<String>)
    ensures
        crate::text::opt_view(r) == directory_from(
            crate::text::lines_of(crate::http::utf8_lossy(stdout@)),
            0,
        ),
{
    let text = lossy_text(stdout);
    let all = lines(text.as_str());
    let ghost every = crate::text::lines_of(text@);
    assert(crate::text::views(all@).len() == all@.len());
    let mut i: usize = 0;
    while i < all.len()
        invariant
            i <= all@.len(),
            all@.len() == every.len(),
            every == crate::text::views(all@),
            every == crate::text::lines_of(crate::http::utf8_lossy(stdout@)),
            directory_from(every, 0) == directory_from(every, i as int),
        decreases all@.len() - i,
    {
        assert(every[i as int] == all@[i as int]@);
        match crate::text::strip_prefix(all[i].as_str(), "n") {
            Some(rest) => {
                let path = trim(rest.as_str());
                if !path.as_str().is_empty() {
                    return Some(path);
                }
            },
            None => {},
        }
        i = i + 1;
    }
    None
}

/// A process is found where it is one and its text holds the pattern.
pub proof fn processes_are_found_by_text(p: ProcessView, haystack: Seq<char>, needle: Seq<char>)
    ensures
        crate::text::contains_seq(haystack, needle) ==> found_process(Some(p), haystack, needle)
            == Some(p),
        !crate::text::contains_seq(haystack, needle) ==> found_process(Some(p), haystack, needle)
            is None,
        found_process(None, haystack, needle) is None,
{
}

/// The id of a row is a number or the text of one; a row with neither, or with zero, is no process.
pub proof fn row_ids_are_read(row: RowView, n: u64, s: Seq<char>, cmd: Seq<char>)
    ensures
        row.process_id == Some(JsonView::Number(NumberView::Unsigned(n))) && 1 <= n <= u32::MAX ==> {
            &&& row.command_line == Some(cmd) ==> row_process(row) == Some(
                ProcessView { pid: n as u32, cmd },
            )
            &&& row.command_line is None ==> row_process(row) == Some(
                ProcessView { pid: n as u32, cmd: seq![] },
            )
        },
        row.process_id == Some(JsonView::Str(s)) && crate::numbers::parse_unsigned(
            s,
            10,
            u32::MAX as nat,
        ) == Some(n as nat) && 1 <= n <= u32::MAX && row.command_line == Some(cmd) ==> row_process(
            row,
        ) == Some(ProcessView { pid: n as u32, cmd }),
        row.process_id == Some(JsonView::Number(NumberView::Unsigned(n))) && n % 0x1_0000_0000 != 0
            && row.command_line == Some(cmd) ==> row_process(row) == Some(
            ProcessView { pid: (n % 0x1_0000_0000) as u32, cmd },
        ),
        row.process_id is None ==> row_process(row) is None,
        row.process_id == Some(JsonView::Number(NumberView::Unsigned(0))) ==> row_process(row)
            is None,
        row.process_id matches Some(v) ==> v is Null || v is Bool || v is Array || v is Object
            ==> row_process(row) is None,
        row.process_id == Some(JsonView::Str(s)) && crate::numbers::parse_unsigned(
            s,
            10,
            u32::MAX as nat,
        ) is None ==> row_process(row) is None,
{
}

/// A row is searched by its name, its path and its command line.
pub proof fn rows_are_searched_whole(row: RowView, s: Seq<char>)
    ensures
        row.name == Some(s) ==> crate::text::contains_seq(row_text(row), s),
        row.executable_path == Some(s) ==> crate::text::contains_seq(row_text(row), s),
        row.command_line == Some(s) ==> crate::text::contains_seq(row_text(row), s),
{
    let name = crate::pipeline::or_empty(row.name);
    let path = crate::pipeline::or_empty(row.executable_path);
    let cmd = crate::pipeline::or_empty(row.command_line);
    let text = row_text(row);
    assert(text =~= seq![] + name + ("\n"@ + path + "\n"@ + cmd));
    crate::text::lemma_holds_middle(seq![], name, "\n"@ + path + "\n"@ + cmd);
    assert(text =~= (name + "\n"@) + path + ("\n"@ + cmd));
    crate::text::lemma_holds_middle(name + "\n"@, path, "\n"@ + cmd);
    assert(text =~= (name + "\n"@ + path + "\n"@) + cmd + seq![]);
    crate::text::lemma_holds_middle(name + "\n"@ + path + "\n"@, cmd, seq![]);
}

/// The processes found in rows are those whose row has an id and holds the pattern, in whatever
/// case, in their order. `at` says which row each is.
pub proof fn matching_rows_are_found(rows: Seq<RowView>, pattern: Seq<char>, n: nat) -> (at: Seq<int>)
    requires
        n <= rows.len(),
    ensures
        crate::editor::ascending(at, n as int),
        at.len() == processes_in_rows(rows, pattern, n).len(),
        forall|k: int|
            0 <= k < at.len() ==> row_process(rows[#[trigger] at[k]]) == Some(
                processes_in_rows(rows, pattern, n)[k],
            ) && crate::text::contains_seq(
                lowercase(row_text(rows[at[k]])),
                lowercase(pattern),
            ),
        forall|i: int|
            0 <= i < n && row_process(#[trigger] rows[i]) is Some && crate::text::contains_seq(
                lowercase(row_text(rows[i])),
                lowercase(pattern),
            ) ==> at.contains(i),
    decreases n,
{
    if n == 0 {
        seq![]
    } else {
        let before = matching_rows_are_found(rows, pattern, (n - 1) as nat);
        let last = rows[n - 1];
        if row_process(last) is Some && crate::text::contains_seq(
            lowercase(row_text(last)),
            lowercase(pattern),
        ) {
            let at = before.push(n - 1);
            assert forall|i: int|
                0 <= i < n && row_process(#[trigger] rows[i]) is Some && crate::text::contains_seq(
                    lowercase(row_text(rows[i])),
                    lowercase(pattern),
                ) implies at.contains(i) by {
                if i < n - 1 {
                    let k = choose|k: int| 0 <= k < before.len() && before[k] == i;
                    assert(at[k] == i);
                } else {
                    assert(at[before.len() as int] == i);
                }
            }
            at
        } else {
            before
        }
    }
}

/// A line of the listing is a process id, which white space may precede, and the command behind it,
/// without white space around it. A line without either, or with the id zero, is no process.
pub proof fn listed_lines_are_read(
    white: Seq<char>,
    id: Seq<char>,
    gap: Seq<char>,
    cmd: Seq<char>,
    end: Seq<char>,
    n: nat,
)
    requires
        forall|i: int| 0 <= i < white.len() ==> crate::text::is_white(#[trigger] white[i]),
        id.len() > 0,
        forall|i: int| 0 <= i < id.len() ==> !crate::text::is_white(#[trigger] id[i]),
        gap.len() > 0,
        forall|i: int| 0 <= i < gap.len() ==> crate::text::is_white(#[trigger] gap[i]),
        forall|i: int| 0 <= i < end.len() ==> crate::text::is_white(#[trigger] end[i]),
        cmd.len() > 0 ==> !crate::text::is_white(cmd[0]) && !crate::text::is_white(cmd.last()),
    ensures
        ({
            let found = line_process(white + id + (gap + cmd + end));
            let number = crate::numbers::parse_unsigned(id, 10, u32::MAX as nat);
            &&& number == Some(n) && 1 <= n <= u32::MAX && cmd.len() > 0 ==> found == Some(
                ProcessView { pid: n as u32, cmd },
            )
            &&& number is None || number == Some(0nat) || cmd.len() == 0 ==> found is None
        }),
{
    let tail = gap + cmd + end;
    let line = white + id + tail;
    crate::text::lemma_skip_white(line, 0);
    let i = crate::text::skip_white(line, 0);
    if i < white.len() {
        assert(line[i] == white[i]);
    }
    if i > white.len() {
        assert(line[white.len() as int] == id[0]);
    }
    let trimmed = crate::text::trim_start_of(line);
    assert(trimmed =~= id + tail);
    crate::text::lemma_skip_word(trimmed, 0);
    let j = crate::text::skip_word(trimmed, 0);
    if j < id.len() {
        assert(trimmed[j] == id[j]);
    }
    if j > id.len() {
        assert(trimmed[id.len() as int] == gap[0]);
    }
    assert(trimmed.take(j) =~= id);
    let rest = gap.skip(1);
    assert(trimmed.skip(j + 1) =~= rest + cmd + end);
    assert forall|k: int| 0 <= k < rest.len() implies crate::text::is_white(#[trigger] rest[k]) by {
        assert(rest[k] == gap[k + 1]);
    }
    crate::text::trimming_keeps_the_text(rest, cmd, end);
}

/// The processes found in lines are those whose command holds the pattern, in whatever case, in
/// their order. `at` says which line each is.
pub proof fn matching_lines_are_found(all: Seq<Seq<char>>, pattern: Seq<char>, n: nat) -> (at: Seq<
    int,
>)
    requires
        n <= all.len(),
    ensures
        crate::editor::ascending(at, n as int),
        at.len() == processes_in_lines(all, pattern, n).len(),
        forall|k: int|
            0 <= k < at.len() ==> line_process(all[#[trigger] at[k]]) == Some(
                processes_in_lines(all, pattern, n)[k],
            ) && crate::text::contains_seq(
                lowercase(processes_in_lines(all, pattern, n)[k].cmd),
                lowercase(pattern),
            ),
        forall|i: int|
            0 <= i < n && (line_process(#[trigger] all[i]) matches Some(p)
                && crate::text::contains_seq(lowercase(p.cmd), lowercase(pattern)))
                ==> at.contains(i),
    decreases n,
{
    if n == 0 {
        seq![]
    } else {
        let before = matching_lines_are_found(all, pattern, (n - 1) as nat);
        let last = line_process(all[n - 1]);
        if last is Some && crate::text::contains_seq(lowercase(last->0.cmd), lowercase(pattern)) {
            let at = before.push(n - 1);
            assert forall|i: int|
                0 <= i < n && (line_process(#[trigger] all[i]) matches Some(p)
                    && crate::text::contains_seq(
                    lowercase(p.cmd),
                    lowercase(pattern),
                )) implies at.contains(i) by {
                if i < n - 1 {
                    let k = choose|k: int| 0 <= k < before.len() && before[k] == i;
                    assert(at[k] == i);
                } else {
                    assert(at[before.len() as int] == i);
                }
            }
            at
        } else {
            before
        }
    }
}

/// Rows and printed lines are both searched, and a system without a listing is an error.
pub proof fn listings_are_searched(rows: Vec<RawProcess>, stdout: Vec<u8>, pattern: Seq<char>)
    ensures
        processes_found(Listing::Cim(rows), pattern) == Ok::<Seq<ProcessView>, FailureView>(
            processes_in_rows(row_views(rows@), pattern, rows@.len()),
        ),
        processes_found(Listing::Ps(stdout), pattern) == Ok::<Seq<ProcessView>, FailureView>(
            processes_in_lines(
                crate::text::lines_of(crate::http::utf8_lossy(stdout@)),
                pattern,
                crate::text::lines_of(crate::http::utf8_lossy(stdout@)).len(),
            ),
        ),
        processes_found(Listing::Unsupported, pattern) is Err,
{
}

/// The rows of a report are an array or a single object; nothing is reported in an empty text, or
/// in a value of another kind; and a text that is not JSON is an error that says so.
pub proof fn reports_are_read(text: Seq<char>, v: JsonView, e: Seq<char>)
    ensures
        text.len() == 0 ==> cim_text(text) == Ok::<CimView, FailureView>(CimView::Empty),
        text.len() > 0 && crate::parse::parsed_json(text) == Ok::<JsonView, Seq<char>>(v) ==> {
            &&& v is Array ==> cim_text(text) == Ok::<CimView, FailureView>(CimView::Many(v))
            &&& v is Object ==> cim_text(text) == Ok::<CimView, FailureView>(CimView::One(v))
            &&& !(v is Array) && !(v is Object) ==> cim_text(text) == Ok::<CimView, FailureView>(
                CimView::Empty,
            )
        },
        text.len() > 0 && crate::parse::parsed_json(text) == Err::<JsonView, Seq<char>>(e)
            ==> cim_text(text) == Err::<CimView, FailureView>(
            FailureView::Message("failed to parse Get-CimInstance JSON output: "@ + e),
        ),
{
}

/// The working directory is what the first line that starts with its mark and names something
/// names, without white space around it.
pub proof fn first_directory_counts(all: Seq<Seq<char>>, from: int, i: int, path: Seq<char>)
    requires
        0 <= from <= i <= all.len(),
        i < all.len() ==> all[i] == "n"@ + path && crate::text::trim_of(path).len() > 0,
        forall|j: int|
            from <= j < i ==> !"n"@.is_prefix_of(#[trigger] all[j]) || crate::text::trim_of(
                all[j].skip(1),
            ).len() == 0,
    ensures
        i < all.len() ==> directory_from(all, from) == Some(crate::text::trim_of(path)),
        i == all.len() ==> directory_from(all, from) is None,
    decreases i - from,
{
    reveal_strlit("n");
    assert("n"@.len() == 1);
    if from < i {
        assert(!"n"@.is_prefix_of(all[from]) || crate::text::trim_of(all[from].skip(1)).len() == 0);
        first_directory_counts(all, from + 1, i, path);
    } else if i < all.len() {
        crate::text::affixes_are_stripped(path, "n"@);
    }
}

/// The view of a process or of a row has all that it has, and those of lists leave none out.
pub proof fn processes_are_viewed_whole(
    p: ProcessInfo,
    r: RawProcess,
    processes: Seq<ProcessInfo>,
    rows: Seq<RawProcess>,
    i: int,
)
    ensures
        p@.pid == p.pid,
        p@.cmd == p.cmd@,
        r@.name == crate::text::opt_view(r.name),
        r@.process_id == crate::json::opt_json_view(r.process_id),
        r@.command_line == crate::text::opt_view(r.command_line),
        r@.executable_path == crate::text::opt_view(r.executable_path),
        process_views(processes).len() == processes.len(),
        0 <= i < processes.len() ==> process_views(processes)[i] == processes[i]@,
        row_views(rows).len() == rows.len(),
        0 <= i < rows.len() ==> row_views(rows)[i] == rows[i]@,
{
}

} // verus!
