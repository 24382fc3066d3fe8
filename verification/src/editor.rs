//! Running Unity Editors and their projects.
use regex::Regex;
use vstd::prelude::*;
use vstd::string::*;

use crate::failure::Failure;
use crate::json::{find_member, Json, JsonView};
use crate::parse::parse_json;
use crate::process::{ProcessInfo, ProcessView};
use crate::text::{
    chars_match, chars_of, contains, copy_opt, ends_with, first_word, is_ascii_white_space, lines,
    offset_at, position_at, seek_char, strip_prefix, substring, to_ascii_lowercase, trim, trim_end,
};

verus! {

// ---------------------------------------------------------------------------
// Types
// ---------------------------------------------------------------------------
/// Descriptor written by the Pipeline package into
/// `<project>/Library/Pipeline/.unity-pipeline-port`.
///
/// The server's identity and guidance fields are read even where this client only needs the
/// port: `info` is published by the server specifically so that every client reads it before
/// issuing commands, and the identity fields are authoritative where the CLI would otherwise
/// re-derive them from the process table and `ProjectVersion.txt`.
#[derive(Debug, PartialEq, Eq)]
pub struct PortDescriptor {
    pub port: u16,
    pub eval_token: Option<String>,
    /// Guidance the Editor wants the client to know about itself, e.g. that it was not started
    /// with `-automated` and can therefore get stuck on modal dialogs. Absent when there is
    /// nothing to say.
    pub info: Option<String>,
    /// `"editor"` or `"batchmode"`. A batchmode Editor cannot show modal dialogs at all.
    pub mode: Option<String>,
    pub pid: Option<u32>,
    pub project_name: Option<String>,
    pub unity_version: Option<String>,
}

/// A running Editor with a project open.
#[derive(Debug, PartialEq, Eq)]
pub struct EditorInstance {
    pub project_path: String,
    pub project_name: String,
    pub pid: u32,
    pub unity_version: Option<String>,
    pub has_pipeline: bool,
    pub pipeline_version: Option<String>,
    pub descriptor: Option<PortDescriptor>,
    pub is_reachable: bool,
}

/// What a [`PortDescriptor`] holds.
pub struct DescriptorView {
    pub port: u16,
    pub eval_token: Option<Seq<char>>,
    pub info: Option<Seq<char>>,
    pub mode: Option<Seq<char>>,
    pub pid: Option<u32>,
    pub project_name: Option<Seq<char>>,
    pub unity_version: Option<Seq<char>>,
}

/// What an [`EditorInstance`] holds.
pub struct InstanceView {
    pub project_path: Seq<char>,
    pub project_name: Seq<char>,
    pub pid: u32,
    pub unity_version: Option<Seq<char>>,
    pub has_pipeline: bool,
    pub pipeline_version: Option<Seq<char>>,
    pub descriptor: Option<DescriptorView>,
    pub is_reachable: bool,
}

impl View for PortDescriptor {
    type V = DescriptorView;

    open spec fn view(&self) -> DescriptorView {
        DescriptorView {
            port: self.port,
            eval_token: crate::text::opt_view(self.eval_token),
            info: crate::text::opt_view(self.info),
            mode: crate::text::opt_view(self.mode),
            pid: self.pid,
            project_name: crate::text::opt_view(self.project_name),
            unity_version: crate::text::opt_view(self.unity_version),
        }
    }
}

/// The view of an optional descriptor.
pub open spec fn opt_descriptor(d: Option<PortDescriptor>) -> Option<DescriptorView> {
    match d {
        Some(x) => Some(x@),
        None => None,
    }
}

impl View for EditorInstance {
    type V = InstanceView;

    open spec fn view(&self) -> InstanceView {
        InstanceView {
            project_path: self.project_path@,
            project_name: self.project_name@,
            pid: self.pid,
            unity_version: crate::text::opt_view(self.unity_version),
            has_pipeline: self.has_pipeline,
            pipeline_version: crate::text::opt_view(self.pipeline_version),
            descriptor: opt_descriptor(self.descriptor),
            is_reachable: self.is_reachable,
        }
    }
}

impl Clone for PortDescriptor {
    fn clone(&self) -> (r: Self)
        ensures
            r@ == self@,
    {
        PortDescriptor {
            port: self.port,
            eval_token: copy_opt(&self.eval_token),
            info: copy_opt(&self.info),
            mode: copy_opt(&self.mode),
            pid: self.pid,
            project_name: copy_opt(&self.project_name),
            unity_version: copy_opt(&self.unity_version),
        }
    }
}

// ---------------------------------------------------------------------------
// Project files
// ---------------------------------------------------------------------------
/// The Editor version that the lines from `from` on name.
pub open spec fn version_from(all: Seq<Seq<char>>, from: int) -> Option<Seq<char>>
    decreases all.len() - from,
{
    if 0 <= from < all.len() {
        match crate::text::strip_prefix_of(all[from], "m_EditorVersion:"@) {
            Some(rest) => Some(crate::text::trim_of(rest)),
            None => version_from(all, from + 1),
        }
    } else {
        None
    }
}

/// The Editor version that the content of `ProjectVersion.txt` names.
pub open spec fn version_of(content: Option<Seq<char>>) -> Option<Seq<char>> {
    match content {
        Some(s) => version_from(crate::text::lines_of(s), 0),
        None => None,
    }
}

/// The Editor version of a project, from the content of its `ProjectSettings/ProjectVersion.txt`.
pub fn get_unity_project_version(content: Option<&str>) -> (r: Option<String>)
    ensures
        crate::text::opt_view(r) == version_of(crate::text::opt_str_view(content)),
{
    let text = match content {
        Some(s) => s,
        None => {
            return None;
        },
    };
    let all = lines(text);
    let mut i: usize = 0;
    assert(crate::text::views(all@).len() == all@.len());
    while i < all.len()
        invariant
            i <= all@.len(),
            crate::text::opt_str_view(content) == Some(text@),
            crate::text::views(all@) == crate::text::lines_of(text@),
            crate::text::views(all@).len() == all@.len(),
            version_from(crate::text::lines_of(text@), 0) == version_from(
                crate::text::lines_of(text@),
                i as int,
            ),
        decreases all@.len() - i,
    {
        assert(crate::text::views(all@)[i as int] == all@[i as int]@);
        match strip_prefix(all[i].as_str(), "m_EditorVersion:") {
            Some(rest) => {
                return Some(trim(rest.as_str()));
            },
            None => {},
        }
        i = i + 1;
    }
    None
}

/// What the text of a file reads as; `None` where there is no file or no JSON in it.
pub open spec fn file_value(text: Option<Seq<char>>) -> Option<JsonView> {
    match text {
        Some(s) => match crate::parse::parsed_json(s) {
            Ok(v) => Some(v),
            Err(_) => None,
        },
        None => None,
    }
}

/// What the text of a file reads as.
fn read_file_value(text: Option<&str>) -> (r: Option<Json>)
    ensures
        crate::json::opt_json_view(r) == file_value(crate::text::opt_str_view(text)),
{
    match text {
        Some(s) => match parse_json(s) {
            Ok(v) => Some(v),
            Err(_) => None,
        },
        None => None,
    }
}

/// Whether a manifest lists the Pipeline package among its dependencies.
pub open spec fn lists_pipeline(manifest: JsonView) -> bool {
    match crate::json::field(manifest, "dependencies"@) {
        Some(JsonView::Object(deps)) => crate::json::has_member(deps, "com.unity.pipeline"@),
        _ => false,
    }
}

/// Whether a manifest lists the Pipeline package among its dependencies.
pub fn manifest_lists_pipeline(manifest: &Json) -> (r: bool)
    ensures
        r == lists_pipeline(manifest@),
{
    broadcast use crate::json::lemma_object_view;

    match manifest.get("dependencies") {
        Some(Json::Object(deps)) => {
            proof {
                crate::json::member_found(
                    crate::json::members_view(deps@),
                    "com.unity.pipeline"@,
                );
            }
            find_member(deps, "com.unity.pipeline") < deps.len()
        },
        _ => false,
    }
}

/// Whether the Pipeline package is installed: the manifest lists it, or its directory is there.
pub open spec fn pipeline_installed(manifest: Option<Seq<char>>, package_dir: bool) -> bool {
    match file_value(manifest) {
        Some(v) => lists_pipeline(v) || package_dir,
        None => package_dir,
    }
}

/// Whether the Pipeline package is installed in a project, from the text of its package manifest
/// and whether `Packages/com.unity.pipeline` is a directory.
pub fn is_pipeline_installed(manifest: Option<&str>, package_dir: bool) -> (r: bool)
    ensures
        r == pipeline_installed(crate::text::opt_str_view(manifest), package_dir),
{
    match read_file_value(manifest) {
        Some(v) => manifest_lists_pipeline(&v) || package_dir,
        None => package_dir,
    }
}

/// The version that the three files of a project name: the lock file, then the manifest, then the
/// embedded package.
pub open spec fn version_in(
    lock: Option<JsonView>,
    manifest: Option<JsonView>,
    package: Option<JsonView>,
) -> Option<Seq<char>> {
    let locked = crate::json::string_in(
        crate::json::step(crate::json::step(crate::json::step(lock, "dependencies"@), "com.unity.pipeline"@), "version"@),
    );
    let listed = crate::json::string_in(
        crate::json::step(crate::json::step(manifest, "dependencies"@), "com.unity.pipeline"@),
    );
    if locked is Some {
        locked
    } else if listed is Some {
        listed
    } else {
        crate::json::string_in(crate::json::step(package, "version"@))
    }
}

/// A value one step further down.
fn down<'a>(v: Option<&'a Json>, key: &str) -> (r: Option<&'a Json>)
    ensures
        crate::json::opt_ref_view(r) == crate::json::step(crate::json::opt_ref_view(v), key@),
{
    match v {
        Some(x) => x.get(key),
        None => None,
    }
}

/// An owned copy of the string that an optional value is.
fn owned_str(v: Option<&Json>) -> (r: Option<String>)
    ensures
        crate::text::opt_view(r) == crate::json::string_in(crate::json::opt_ref_view(v)),
{
    match v {
        Some(x) => match x.as_str() {
            Some(s) => Some(s.to_owned()),
            None => None,
        },
        None => None,
    }
}

/// The version of the Pipeline package that the three files name, from what they read as.
pub fn pipeline_version_in(lock: Option<&Json>, manifest: Option<&Json>, package: Option<&Json>) -> (r:
    Option<String>)
    ensures
        crate::text::opt_view(r) == version_in(
            crate::json::opt_ref_view(lock),
            crate::json::opt_ref_view(manifest),
            crate::json::opt_ref_view(package),
        ),
{
    let locked = owned_str(down(down(down(lock, "dependencies"), "com.unity.pipeline"), "version"));
    if locked.is_some() {
        return locked;
    }
    let listed = owned_str(down(down(manifest, "dependencies"), "com.unity.pipeline"));
    if listed.is_some() {
        return listed;
    }
    owned_str(down(package, "version"))
}

/// The version of the Pipeline package in a project, from the texts of `packages-lock.json`, the
/// package manifest, and the `package.json` of the embedded package.
pub fn get_pipeline_version(lock: Option<&str>, manifest: Option<&str>, package: Option<&str>) -> (r:
    Option<String>)
    ensures
        crate::text::opt_view(r) == version_in(
            file_value(crate::text::opt_str_view(lock)),
            file_value(crate::text::opt_str_view(manifest)),
            file_value(crate::text::opt_str_view(package)),
        ),
{
    let l = read_file_value(lock);
    let m = read_file_value(manifest);
    let p = read_file_value(package);
    pipeline_version_in(l.as_ref(), m.as_ref(), p.as_ref())
}

/// The descriptor, where it names a port.
pub open spec fn valid_descriptor(d: Option<DescriptorView>) -> Option<DescriptorView> {
    match d {
        Some(x) => if x.port < 1 {
            None
        } else {
            Some(x)
        },
        None => None,
    }
}

/// The port descriptor of a project, from what its file reads as; one without a port counts as
/// absent.
pub fn read_editor_descriptor(parsed: Option<PortDescriptor>) -> (r: Option<PortDescriptor>)
    ensures
        opt_descriptor(r) == valid_descriptor(opt_descriptor(parsed)),
{
    match parsed {
        Some(d) => if d.port < 1 {
            None
        } else {
            Some(d)
        },
        None => None,
    }
}

// ---------------------------------------------------------------------------
// The project on a command line
// ---------------------------------------------------------------------------
/// A space or a tab.
pub open spec fn is_blank(c: char) -> bool {
    c == ' ' || c == '\t'
}

/// The first position at or after `from` that holds no blank.
pub open spec fn skip_blanks(s: Seq<char>, from: int) -> int
    decreases s.len() - from,
{
    if 0 <= from < s.len() && is_blank(s[from]) {
        skip_blanks(s, from + 1)
    } else {
        from
    }
}

/// `flag` stands in `s` at position `i` as a whole word.
pub open spec fn whole_word_at(s: Seq<char>, flag: Seq<char>, i: int) -> bool {
    &&& crate::text::occurs_at(s, flag, i)
    &&& i == 0 || crate::text::is_ascii_white(s[i - 1])
    &&& i + flag.len() >= s.len() || crate::text::is_ascii_white(s[(i + flag.len()) as int])
}

/// The position behind the first whole-word occurrence of `flag` at or after `from`.
pub open spec fn flag_end_from(s: Seq<char>, flag: Seq<char>, from: int) -> Option<int>
    decreases s.len() - from,
{
    if 0 <= from <= s.len() {
        if whole_word_at(s, flag, from) {
            Some((from + flag.len()) as int)
        } else if from < s.len() {
            flag_end_from(s, flag, from + 1)
        } else {
            None
        }
    } else {
        None
    }
}

/// The lesser of two optional positions.
pub open spec fn earlier(a: Option<int>, b: Option<int>) -> Option<int> {
    match (a, b) {
        (Some(x), Some(y)) => Some(
            if x < y {
                x
            } else {
                y
            },
        ),
        (Some(x), None) => Some(x),
        (None, _) => b,
    }
}

/// The position behind the earliest whole-word occurrence of one of the first `n` flags.
pub open spec fn flag_end_of(s: Seq<char>, flags: Seq<Seq<char>>, n: nat) -> Option<int>
    decreases n,
{
    if n == 0 || n > flags.len() {
        None
    } else {
        earlier(
            flag_end_of(s, flags, (n - 1) as nat),
            flag_end_from(s, flags[n - 1], 0),
        )
    }
}

/// The flags behind which a command line names a project, in small letters.
pub open spec fn project_flags() -> Seq<Seq<char>> {
    seq!["-projectpath"@, "-createproject"@]
}

/// The end of an unquoted value: where white space is followed by the next flag, or the end of
/// the line.
pub open spec fn value_end(s: Seq<char>, cursor: int) -> int
    decreases s.len() - cursor,
{
    if 0 <= cursor < s.len() {
        if is_blank(s[cursor]) {
            let j = skip_blanks(s, cursor);
            if j + 1 < s.len() && s[j] == '-' && !crate::text::is_ascii_white(s[j + 1]) {
                cursor
            } else if cursor < j <= s.len() {
                value_end(s, j)
            } else {
                cursor
            }
        } else {
            value_end(s, cursor + 1)
        }
    } else {
        cursor
    }
}

/// A value on a command line: the value, whether it was quoted, and what follows it.
pub type Extracted = (Seq<char>, bool, Seq<char>);

/// The value that starts at or after `from`.
pub open spec fn value_at(s: Seq<char>, from: int) -> Option<Extracted> {
    let i = skip_blanks(s, from);
    if i >= s.len() {
        None
    } else if s[i] == '"' || s[i] == '\'' {
        let close = crate::text::seek(s, s[i], i + 1);
        if close < s.len() {
            Some((s.subrange(i + 1, close), true, s.skip(close + 1)))
        } else {
            None
        }
    } else {
        let end = value_end(s, i);
        let path = crate::text::trim_end_of(s.subrange(i, end));
        if path.len() == 0 {
            None
        } else {
            Some((path, false, s.skip(end)))
        }
    }
}

/// The project that a command line names.
pub open spec fn project_on(cmd_line: Seq<char>) -> Option<Extracted> {
    match flag_end_of(crate::text::ascii_lower(cmd_line), project_flags(), 2) {
        Some(end) => value_at(cmd_line, end),
        None => None,
    }
}

/// Whether `flag` stands in `s` at position `i` as a whole word.
fn is_whole_word(s: &Vec<char>, flag: &Vec<char>, i: usize) -> (r: bool)
    ensures
        r == whole_word_at(s@, flag@, i as int),
{
    if !chars_match(s, flag, i) {
        return false;
    }
    let n: usize = s.len();
    let after: usize = i + flag.len();
    (i == 0 || is_ascii_white_space(s[i - 1])) && (after >= n || is_ascii_white_space(s[after]))
}

/// The position behind the first whole-word occurrence of `flag`.
fn find_one_flag(s: &Vec<char>, flag: &Vec<char>) -> (r: Option<usize>)
    ensures
        match r {
            Some(e) => flag_end_from(s@, flag@, 0) == Some(e as int) && e <= s@.len(),
            None => flag_end_from(s@, flag@, 0) is None,
        },
{
    let n: usize = s.len();
    let mut i: usize = 0;
    while i < n
        invariant
            i <= n,
            n == s@.len(),
            flag_end_from(s@, flag@, 0) == flag_end_from(s@, flag@, i as int),
        decreases n - i,
    {
        if is_whole_word(s, flag, i) {
            return Some(i + flag.len());
        }
        i = i + 1;
    }
    if is_whole_word(s, flag, i) {
        return Some(i + flag.len());
    }
    None
}

/// The byte just past the earliest whole-word occurrence of one of the flags.
pub open spec fn flag_offset_of(s: Seq<char>, flags: Seq<Seq<char>>) -> Option<nat> {
    match flag_end_of(s, flags, flags.len()) {
        Some(end) => Some(crate::text::byte_offset(s, end)),
        None => None,
    }
}

/// Find the earliest whole-word occurrence of any flag name in `lower` (already lowercased).
/// Returns the byte offset just past the flag name.
pub fn find_flag(lower: &str, flags: &Vec<String>) -> (r: Option<usize>)
    ensures
        match r {
            Some(e) => flag_offset_of(lower@, crate::text::views(flags@)) == Some(e as nat),
            None => flag_offset_of(lower@, crate::text::views(flags@)) is None,
        },
        r is Some ==> 0 <= flag_end_of(lower@, crate::text::views(flags@), flags@.len())->0
            <= lower@.len(),
{
    let cs = chars_of(lower);
    let ghost names = crate::text::views(flags@);
    let mut best: Option<usize> = None;
    let mut k: usize = 0;
    while k < flags.len()
        invariant
            k <= flags@.len(),
            cs@ == lower@,
            names == crate::text::views(flags@),
            match best {
                Some(e) => flag_end_of(lower@, names, k as nat) == Some(e as int) && e
                    <= lower@.len(),
                None => flag_end_of(lower@, names, k as nat) is None,
            },
        decreases flags@.len() - k,
    {
        let hit = find_one_flag(&cs, &chars_of(flags[k].as_str()));
        assert(names[k as int] == flags@[k as int]@);
        best = match (best, hit) {
            (Some(x), Some(y)) => Some(
                if x < y {
                    x
                } else {
                    y
                },
            ),
            (Some(x), None) => Some(x),
            (None, h) => h,
        };
        k = k + 1;
    }
    match best {
        Some(end) => Some(offset_at(&cs, end)),
        None => None,
    }
}

/// The first position at or after `from` that holds no blank.
fn blanks_end(cs: &Vec<char>, from: usize) -> (r: usize)
    requires
        from <= cs@.len(),
    ensures
        r == skip_blanks(cs@, from as int),
        from <= r <= cs@.len(),
{
    let mut i: usize = from;
    while i < cs.len() && (cs[i] == ' ' || cs[i] == '\t')
        invariant
            from <= i <= cs@.len(),
            skip_blanks(cs@, from as int) == skip_blanks(cs@, i as int),
        decreases cs@.len() - i,
    {
        i = i + 1;
    }
    i
}

/// The view of a value on a command line.
pub open spec fn extracted_view(r: Option<(String, bool, String)>) -> Option<Extracted> {
    match r {
        Some(p) => Some((p.0@, p.1, p.2@)),
        None => None,
    }
}

/// The value that starts at or after `from`.
fn extract_value(cs: &Vec<char>, from: usize) -> (r: Option<(String, bool, String)>)
    requires
        from <= cs@.len(),
    ensures
        extracted_view(r) == value_at(cs@, from as int),
{
    let n: usize = cs.len();
    // Skip whitespace between the flag and its value.
    let start: usize = blanks_end(cs, from);
    if start >= n {
        return None;
    }
    let quote: char = cs[start];
    if quote == '"' || quote == '\'' {
        let close: usize = seek_char(cs, quote, start + 1);
        if close >= n {
            return None;
        }
        let path = substring(cs, start + 1, close);
        let remainder = substring(cs, close + 1, n);
        assert(remainder@ =~= cs@.skip(close + 1));
        return Some((path, true, remainder));
    }
    // Unquoted: consume until we see ` -<nonspace>` or the end of the line.

    let mut cursor: usize = start;
    let mut at_flag = false;
    while cursor < n && !at_flag
        invariant
            start <= cursor <= n,
            n == cs@.len(),
            at_flag ==> value_end(cs@, start as int) == cursor,
            !at_flag ==> value_end(cs@, start as int) == value_end(cs@, cursor as int),
        decreases n - cursor, if at_flag { 0int } else { 1int },
    {
        if cs[cursor] == ' ' || cs[cursor] == '\t' {
            let j: usize = blanks_end(cs, cursor);
            assert(skip_blanks(cs@, cursor as int) == skip_blanks(cs@, cursor + 1));
            proof {
                lemma_skip_blanks(cs@, cursor + 1);
            }
            // Look ahead past the whitespace run.
            if n >= 1 && j < n - 1 && cs[j] == '-' && !is_ascii_white_space(cs[j + 1]) {
                at_flag = true;
            } else {
                cursor = j;
            }
        } else {
            cursor = cursor + 1;
        }
    }
    assert(value_end(cs@, start as int) == cursor);
    let path = trim_end(substring(cs, start, cursor).as_str());
    if path.as_str().is_empty() {
        return None;
    }
    let remainder = substring(cs, cursor, n);
    assert(remainder@ =~= cs@.skip(cursor as int));
    Some((path, false, remainder))
}

pub proof fn lemma_skip_blanks(s: Seq<char>, from: int)
    requires
        0 <= from <= s.len(),
    ensures
        from <= skip_blanks(s, from) <= s.len(),
        forall|j: int| from <= j < skip_blanks(s, from) ==> is_blank(s[j]),
        skip_blanks(s, from) < s.len() ==> !is_blank(s[skip_blanks(s, from)]),
    decreases s.len() - from,
{
    if from < s.len() && is_blank(s[from]) {
        lemma_skip_blanks(s, from + 1);
    }
}

/// Locates `-projectPath` or `-createProject` (case-insensitive), then extracts the value: either
/// a quoted string or an unquoted run of tokens up to the next ` -<flag>` (or end of string).
/// Returns the value, whether it was quoted, and what follows it.
pub fn extract_project_path(cmd_line: &str) -> (r: Option<(String, bool, String)>)
    ensures
        extracted_view(r) == project_on(cmd_line@),
{
    let lower = to_ascii_lowercase(cmd_line);
    let flags: Vec<String> = vec!["-projectpath".to_owned(), "-createproject".to_owned()];
    assert(crate::text::views(flags@) =~= project_flags());
    match find_flag(lower.as_str(), &flags) {
        Some(offset) => {
            let cs = chars_of(lower.as_str());
            let ghost goal = flag_end_of(lower@, project_flags(), 2)->0;
            assert(crate::text::byte_offset(cs@, goal) == offset);
            let end: usize = position_at(&cs, offset);
            proof {
                if end < goal {
                    crate::text::lemma_byte_offset_grows(cs@, end as int, goal);
                } else if goal < end {
                    crate::text::lemma_byte_offset_grows(cs@, goal, end as int);
                }
            }
            extract_value(&chars_of(cmd_line), end)
        },
        None => None,
    }
}

/// A quoted value comes out as it was written, with what follows the closing quote.
pub proof fn quoted_path_is_extracted(
    cmd_line: Seq<char>,
    end: int,
    blanks: Seq<char>,
    quote: char,
    path: Seq<char>,
    rest: Seq<char>,
)
    requires
        flag_end_of(crate::text::ascii_lower(cmd_line), project_flags(), 2) == Some(end),
        0 <= end <= cmd_line.len(),
        cmd_line.skip(end) == blanks + seq![quote] + path + seq![quote] + rest,
        forall|i: int| 0 <= i < blanks.len() ==> is_blank(#[trigger] blanks[i]),
        quote == '"' || quote == '\'',
        !path.contains(quote),
    ensures
        project_on(cmd_line) == Some((path, true, rest)),
{
    let s = cmd_line;
    let tail = s.skip(end);
    let i = end + blanks.len();
    assert(tail.len() == blanks.len() + 2 + path.len() + rest.len());
    assert forall|j: int| end <= j < i implies is_blank(#[trigger] s[j]) by {
        assert(s[j] == tail[j - end]);
        assert(blanks[j - end] == tail[j - end]);
    }
    assert(s[i as int] == tail[blanks.len() as int]);
    lemma_skip_blanks_is(s, end, i as int);
    let close = i + 1 + path.len();
    assert forall|j: int| i + 1 <= j < close implies #[trigger] s[j] != quote by {
        assert(s[j] == tail[j - end]);
        assert(path[j - i - 1] == tail[j - end]);
    }
    assert(s[close as int] == tail[close - end]);
    crate::text::lemma_seek_step(s, quote, i + 1, close as int);
    assert(s.subrange(i + 1, close as int) =~= path) by {
        assert forall|j: int| 0 <= j < path.len() implies s.subrange(i + 1, close as int)[j]
            == #[trigger] path[j] by {
            assert(s[i + 1 + j] == tail[blanks.len() + 1 + j]);
        }
    }
    assert(s.skip(close + 1) =~= rest) by {
        assert forall|j: int| 0 <= j < rest.len() implies s.skip(close + 1)[j]
            == #[trigger] rest[j] by {
            assert(s[close + 1 + j] == tail[close + 1 + j - end]);
        }
    }
}

proof fn lemma_skip_blanks_is(s: Seq<char>, from: int, to: int)
    requires
        0 <= from <= to <= s.len(),
        forall|j: int| from <= j < to ==> is_blank(#[trigger] s[j]),
        to < s.len() ==> !is_blank(s[to]),
    ensures
        skip_blanks(s, from) == to,
    decreases to - from,
{
    if from < to {
        assert(is_blank(s[from]));
        lemma_skip_blanks_is(s, from + 1, to);
    }
}

// ---------------------------------------------------------------------------
// Unquoted paths with spaces
// ---------------------------------------------------------------------------
/// The pattern of white space and the word behind it, at the start of a text.
pub const TOKEN_PATTERN: &'static str = "^(\\s+)(\\S+)";

/// The white space that `s` starts with and the word behind it, where there are both.
pub open spec fn leading_token(s: Seq<char>) -> Option<(Seq<char>, Seq<char>)> {
    let a = crate::text::skip_white(s, 0);
    let b = crate::text::skip_word(s, a);
    if 0 < a < b {
        Some((s.take(a), s.subrange(a, b)))
    } else {
        None
    }
}

/// `Regex::captures` for a pattern of one or more white space characters followed by one or more
/// others, both at the start of the text: the two groups, where the pattern matches.
#[verifier::external_body]
fn capture_pair(pattern: &str, text: &str) -> (r: Option<(String, String)>)
    requires
        pattern@ == TOKEN_PATTERN@,
    ensures
        match r {
            Some(p) => leading_token(text@) == Some((p.0@, p.1@)),
            None => leading_token(text@) is None,
        },
{
    let found = Regex::new(pattern).unwrap().captures(text)?;
    Some((found[1].to_owned(), found[2].to_owned()))
}

/// The values that an unquoted path may have: `candidate`, then with one more word of `rest` at a
/// time, up to `more` words.
pub open spec fn candidates_of(candidate: Seq<char>, rest: Seq<char>, more: nat) -> Seq<Seq<char>>
    decreases more,
{
    seq![candidate] + if more == 0 {
        seq![]
    } else {
        match leading_token(rest) {
            Some((white, word)) => candidates_of(
                candidate + white + word,
                rest.skip((white.len() + word.len()) as int),
                (more - 1) as nat,
            ),
            None => seq![],
        }
    }
}

/// The values that an unquoted path may have: the path as it was read, then with up to ten more
/// words of what follows it.
pub fn extension_candidates(candidate: &str, remainder: &str) -> (r: Vec<String>)
    ensures
        crate::text::views(r@) == candidates_of(candidate@, remainder@, 10),
{
    let mut out: Vec<String> = Vec::new();
    let mut extended = candidate.to_owned();
    let mut rest = remainder.to_owned();
    let mut more: usize = 10;
    let ghost all = candidates_of(candidate@, remainder@, 10);
    assert(crate::text::views(out@) + candidates_of(extended@, rest@, more as nat) =~= all);
    loop
        invariant
            more <= 10,
            all == candidates_of(candidate@, remainder@, 10),
            crate::text::views(out@) + candidates_of(extended@, rest@, more as nat) == all,
        decreases more,
    {
        let ghost before = out@;
        let ghost here = extended@;
        out.push(extended.clone());
        assert(crate::text::views(out@) =~= crate::text::views(before).push(here));
        let ghost tail = if more == 0 {
            seq![]
        } else {
            match leading_token(rest@) {
                Some((white, word)) => candidates_of(
                    here + white + word,
                    rest@.skip((white.len() + word.len()) as int),
                    (more - 1) as nat,
                ),
                None => seq![],
            }
        };
        assert(candidates_of(here, rest@, more as nat) == seq![here] + tail);
        assert(crate::text::views(out@) + tail =~= all);
        if more == 0 {
            assert(crate::text::views(out@) + tail =~= crate::text::views(out@));
            return out;
        }
        match capture_pair(TOKEN_PATTERN, rest.as_str()) {
            None => {
                assert(crate::text::views(out@) + tail =~= crate::text::views(out@));
                return out;
            },
            Some((white, word)) => {
                let cs = chars_of(rest.as_str());
                let n: usize = cs.len();
                proof {
                    let a = crate::text::skip_white(rest@, 0);
                    crate::text::lemma_skip_white(rest@, 0);
                    crate::text::lemma_skip_word(rest@, a);
                    assert(white@.len() + word@.len() <= n);
                }
                extended.append(white.as_str());
                extended.append(word.as_str());
                let used: usize = chars_of(white.as_str()).len() + chars_of(word.as_str()).len();
                let next = substring(&cs, used, n);
                assert(next@ =~= rest@.skip(used as int));
                rest = next;
            },
        }
        more = more - 1;
    }
}

/// The first candidate from position `from` on that is a project.
pub open spec fn first_project(
    candidates: Seq<Seq<char>>,
    has_assets: Seq<bool>,
    from: int,
) -> Option<Seq<char>>
    decreases candidates.len() - from,
{
    if 0 <= from < candidates.len() && from < has_assets.len() {
        if has_assets[from] {
            Some(candidates[from])
        } else {
            first_project(candidates, has_assets, from + 1)
        }
    } else {
        None
    }
}

/// The value that an unquoted path turns out to have.
pub open spec fn extended_path(
    candidate: Seq<char>,
    remainder: Seq<char>,
    has_assets: Seq<bool>,
) -> Seq<char> {
    match first_project(candidates_of(candidate, remainder, 10), has_assets, 0) {
        Some(p) => p,
        None => candidate,
    }
}

/// Re-absorb tokens from `remainder` into `candidate` until `Assets/` appears: the first of the
/// [`extension_candidates`] that has the directory, `candidate` itself where none has.
/// `has_assets` says of the candidates in their order which have it; one that it leaves out has
/// not.
pub fn extend_unquoted(candidate: &str, remainder: &str, has_assets: &Vec<bool>) -> (r: String)
    ensures
        r@ == extended_path(candidate@, remainder@, has_assets@),
{
    let all = extension_candidates(candidate, remainder);
    assert(crate::text::views(all@).len() == all@.len());
    let mut i: usize = 0;
    while i < all.len() && i < has_assets.len()
        invariant
            i <= all@.len(),
            crate::text::views(all@).len() == all@.len(),
            crate::text::views(all@) == candidates_of(candidate@, remainder@, 10),
            first_project(crate::text::views(all@), has_assets@, 0) == first_project(
                crate::text::views(all@),
                has_assets@,
                i as int,
            ),
        decreases all@.len() - i,
    {
        if has_assets[i] {
            assert(crate::text::views(all@)[i as int] == all@[i as int]@);
            return all[i].clone();
        }
        i = i + 1;
    }
    candidate.to_owned()
}

// ---------------------------------------------------------------------------
// Processes
// ---------------------------------------------------------------------------
/// A system that Editors run on.
#[derive(Debug, Clone, Copy, PartialEq, Eq, Structural)]
pub enum Platform {
    Windows,
    MacOs,
    Other,
}

/// Substring used to locate the Unity Editor process on a platform.
pub open spec fn needle_of(platform: Platform) -> Seq<char> {
    match platform {
        Platform::Windows => "Unity.exe"@,
        Platform::MacOs => "Unity.app/Contents/MacOS/Unity"@,
        Platform::Other => "Unity"@,
    }
}

/// Platform-specific substring used to locate the Unity Editor process. Windows binaries are named
/// `Unity.exe`; macOS ships `Unity.app/Contents/MacOS/Unity`.
pub fn process_needle(platform: Platform) -> (r: &'static str)
    ensures
        r@ == needle_of(platform),
{
    match platform {
        Platform::Windows => "Unity.exe",
        Platform::MacOs => "Unity.app/Contents/MacOS/Unity",
        Platform::Other => "Unity",
    }
}

/// Whether a command line is that of a helper process.
pub open spec fn worker(cmd_line: Seq<char>) -> bool {
    ||| crate::text::contains_seq(cmd_line, "AssetImportWorker"@)
    ||| crate::text::contains_seq(cmd_line, "-batchmode"@)
    ||| crate::text::contains_seq(cmd_line, "-name"@) && crate::text::contains_seq(
        cmd_line,
        "AssetImport"@,
    )
}

/// Whether a command line is that of a helper process rather than an Editor.
pub fn is_worker_process(cmd_line: &str) -> (r: bool)
    ensures
        r == worker(cmd_line@),
{
    contains(cmd_line, "AssetImportWorker") || contains(cmd_line, "-batchmode") || (contains(
        cmd_line,
        "-name",
    ) && contains(cmd_line, "AssetImport"))
}

/// On macOS, only the main Editor process has argv[0] ending in
/// `Unity.app/Contents/MacOS/Unity`. Auxiliary helpers live under `Contents/Frameworks/`,
/// `Contents/Tools/`, `Contents/Resources/`, etc., so filtering by argv[0] suffix keeps us from
/// treating them as Editors.
pub fn is_main_editor_argv0(cmd_line: &str) -> (r: bool)
    ensures
        r == main_editor(cmd_line@),
{
    ends_with(first_word(cmd_line).as_str(), "/Unity.app/Contents/MacOS/Unity")
}

/// Whether the first word of a command line is the main Editor binary of macOS.
pub open spec fn main_editor(cmd_line: Seq<char>) -> bool {
    "/Unity.app/Contents/MacOS/Unity"@.is_suffix_of(crate::text::first_word_of(cmd_line))
}

/// Where the project of a running Editor is to be found.
#[derive(Debug, PartialEq, Eq)]
pub enum ProjectLead {
    /// On the command line.
    Flag { path: String, quoted: bool, remainder: String },
    /// In the working directory of the process.
    WorkingDirectory,
}

/// What a [`ProjectLead`] holds.
pub enum LeadView {
    Flag { path: Seq<char>, quoted: bool, remainder: Seq<char> },
    WorkingDirectory,
}

impl View for ProjectLead {
    type V = LeadView;

    open spec fn view(&self) -> LeadView {
        match self {
            ProjectLead::Flag { path, quoted, remainder } => LeadView::Flag {
                path: path@,
                quoted: *quoted,
                remainder: remainder@,
            },
            ProjectLead::WorkingDirectory => LeadView::WorkingDirectory,
        }
    }
}

/// Where the project of a process is to be found; `None` for what is no Editor, or an Editor that
/// names no project where the working directory does not tell.
pub open spec fn lead_of(cmd: Seq<char>, macos: bool) -> Option<LeadView> {
    if cmd.len() == 0 || worker(cmd) || (macos && !main_editor(cmd)) {
        None
    } else {
        match project_on(cmd) {
            Some((path, quoted, remainder)) => Some(LeadView::Flag { path, quoted, remainder }),
            None => if macos {
                Some(LeadView::WorkingDirectory)
            } else {
                None
            },
        }
    }
}

/// Where the project of one process is to be found.
pub fn editor_lead(cmd_line: &str, macos: bool) -> (r: Option<ProjectLead>)
    ensures
        match r {
            Some(l) => lead_of(cmd_line@, macos) == Some(l@),
            None => lead_of(cmd_line@, macos) is None,
        },
{
    if cmd_line.is_empty() || is_worker_process(cmd_line) {
        return None;
    }
    if macos && !is_main_editor_argv0(cmd_line) {
        return None;
    }
    match extract_project_path(cmd_line) {
        Some((path, quoted, remainder)) => Some(ProjectLead::Flag { path, quoted, remainder }),
        None => if macos {
            Some(ProjectLead::WorkingDirectory)
        } else {
            None
        },
    }
}

/// What the system says about the places that a lead names.
#[derive(Debug, PartialEq, Eq)]
pub struct Whereabouts {
    /// Whether the path on the command line is absolute.
    pub is_absolute: bool,
    /// Which of the candidates for an unquoted path are projects (see [`extend_unquoted`]).
    pub has_assets: Vec<bool>,
    /// The working directory of the process.
    pub cwd: Option<String>,
    /// Whether the working directory is absolute.
    pub cwd_is_absolute: bool,
    /// The canonical form of the path that the lead comes to (see [`follow_lead`]).
    pub canonical: Option<String>,
}

/// What a [`Whereabouts`] holds.
pub struct WhereView {
    pub is_absolute: bool,
    pub has_assets: Seq<bool>,
    pub cwd: Option<Seq<char>>,
    pub cwd_is_absolute: bool,
    pub canonical: Option<Seq<char>>,
}

impl View for Whereabouts {
    type V = WhereView;

    open spec fn view(&self) -> WhereView {
        WhereView {
            is_absolute: self.is_absolute,
            has_assets: self.has_assets@,
            cwd: crate::text::opt_view(self.cwd),
            cwd_is_absolute: self.cwd_is_absolute,
            canonical: crate::text::opt_view(self.canonical),
        }
    }
}

impl Whereabouts {
    /// Nothing is known.
    pub fn unknown() -> (r: Whereabouts)
        ensures
            r@ == (WhereView {
                is_absolute: false,
                has_assets: seq![],
                cwd: None,
                cwd_is_absolute: false,
                canonical: None,
            }),
    {
        let has_assets: Vec<bool> = Vec::new();
        assert(has_assets@ =~= seq![]);
        Whereabouts {
            is_absolute: false,
            has_assets,
            cwd: None,
            cwd_is_absolute: false,
            canonical: None,
        }
    }
}

/// The path that a lead comes to; `None` where that is not absolute.
pub open spec fn path_of(lead: LeadView, w: WhereView) -> Option<Seq<char>> {
    match lead {
        LeadView::Flag { path, quoted, remainder } => if !w.is_absolute {
            None
        } else if quoted {
            Some(path)
        } else {
            Some(extended_path(path, remainder, w.has_assets))
        },
        LeadView::WorkingDirectory => if w.cwd_is_absolute {
            w.cwd
        } else {
            None
        },
    }
}

/// The path that a lead comes to: the value of the flag, with more words where it was unquoted
/// (see [`extend_unquoted`]), or the working directory. A path that is not absolute is dropped.
pub fn follow_lead(lead: &ProjectLead, found: &Whereabouts) -> (r: Option<String>)
    ensures
        crate::text::opt_view(r) == path_of(lead@, found@),
{
    match lead {
        ProjectLead::Flag { path, quoted, remainder } => if !found.is_absolute {
            None
        } else if *quoted {
            Some(path.clone())
        } else {
            Some(extend_unquoted(path.as_str(), remainder.as_str(), &found.has_assets))
        },
        ProjectLead::WorkingDirectory => if found.cwd_is_absolute {
            copy_opt(&found.cwd)
        } else {
            None
        },
    }
}

/// A path in its plain form: the canonical one without the `\\?\` that Windows puts in front of
/// it, or the path itself where there is no canonical one.
pub open spec fn plain_path(path: Seq<char>, canonical: Option<Seq<char>>) -> Seq<char> {
    match canonical {
        Some(c) => match crate::text::strip_prefix_of(c, "\\\\?\\"@) {
            Some(s) => s,
            None => c,
        },
        None => path,
    }
}

/// A path in its plain form. On Windows, the canonical form has a `\\?\` prefix; the plain
/// absolute form is closer to what a user pasted, so we prefer it.
pub fn normalize_path(path: &str, canonical: Option<&str>) -> (r: String)
    ensures
        r@ == plain_path(path@, crate::text::opt_str_view(canonical)),
{
    match canonical {
        Some(c) => match strip_prefix(c, "\\\\?\\") {
            Some(s) => s,
            None => c.to_owned(),
        },
        None => path.to_owned(),
    }
}

/// The project of the Editor that a process is, in its plain form; `None` for what is no Editor, or
/// an Editor that names no absolute path.
pub open spec fn editor_path(cmd: Seq<char>, macos: bool, w: WhereView) -> Option<Seq<char>> {
    match lead_of(cmd, macos) {
        Some(lead) => match path_of(lead, w) {
            Some(path) => Some(plain_path(path, w.canonical)),
            None => None,
        },
        None => None,
    }
}

/// The projects of the Editors among the first `n` processes, each with its process id.
pub open spec fn editors_of(
    processes: Seq<ProcessView>,
    macos: bool,
    found: Seq<WhereView>,
    n: nat,
) -> Seq<(Seq<char>, u32)>
    decreases n,
{
    if n == 0 || n > processes.len() || n > found.len() {
        seq![]
    } else {
        let before = editors_of(processes, macos, found, (n - 1) as nat);
        match editor_path(processes[n - 1].cmd, macos, found[n - 1]) {
            Some(path) => before.push((path, processes[n - 1].pid)),
            None => before,
        }
    }
}

/// The views of a list of whereabouts.
pub open spec fn where_views(v: Seq<Whereabouts>) -> Seq<WhereView> {
    Seq::new(v.len(), |i: int| v[i]@)
}

/// The views of a list of projects with process ids.
pub open spec fn editor_views(v: Seq<(String, u32)>) -> Seq<(Seq<char>, u32)> {
    Seq::new(v.len(), |i: int| (v[i].0@, v[i].1))
}

/// The processes that a listing found; none where it failed.
pub open spec fn listed(processes: Result<Vec<ProcessInfo>, Failure>) -> Seq<ProcessView> {
    match processes {
        Ok(v) => crate::process::process_views(v@),
        Err(_) => seq![],
    }
}

/// Every running Unity Editor instance among the processes that a listing found, along with its
/// project path. `found` says what is known about the lead of each process ([`editor_lead`]). A
/// listing that failed has no Editors.
///
/// The project path is discovered by two complementary strategies:
///   1. Parse `-projectPath` / `-createProject` from the command line (Unity Hub on Windows and
///      any CLI launch on either OS use this).
///   2. On macOS, when the flag is absent (Unity Hub launches the Editor via LaunchServices
///      without command-line args), fall back to the process's current working directory, which
///      is always the opened project root.
pub fn get_running_unity_editors(
    processes: &Result<Vec<ProcessInfo>, Failure>,
    macos: bool,
    found: &Vec<Whereabouts>,
) -> (r: Vec<(String, u32)>)
    requires
        found@.len() == listed(*processes).len(),
    ensures
        editor_views(r@) == editors_of(
            listed(*processes),
            macos,
            where_views(found@),
            found@.len(),
        ),
{
    let mut out: Vec<(String, u32)> = Vec::new();
    let ghost all = listed(*processes);
    let ghost places = where_views(found@);
    assert(editor_views(out@) =~= editors_of(all, macos, places, 0));
    let list = match processes {
        Ok(v) => v,
        Err(_) => {
            return out;
        },
    };
    let mut i: usize = 0;
    while i < list.len()
        invariant
            i <= list@.len(),
            found@.len() == list@.len(),
            all == crate::process::process_views(list@),
            places == where_views(found@),
            editor_views(out@) == editors_of(all, macos, places, i as nat),
        decreases list@.len() - i,
    {
        let ghost before = out@;
        match editor_lead(list[i].cmd.as_str(), macos) {
            Some(lead) => match follow_lead(&lead, &found[i]) {
                Some(path) => {
                    let pid: u32 = list[i].pid;
                    let plain = normalize_path(path.as_str(), opt_slice(&found[i].canonical));
                    let ghost shown = plain@;
                    out.push((plain, pid));
                    assert(editor_views(out@) =~= editor_views(before).push((shown, pid)));
                },
                None => {},
            },
            None => {},
        }
        i = i + 1;
    }
    out
}

/// What is no Editor has no entry: a process without a command line, a helper process, and one
/// whose project path, or working directory, is not absolute.
pub proof fn only_absolute_projects_count(cmd: Seq<char>, macos: bool, w: WhereView)
    ensures
        cmd.len() == 0 || worker(cmd) ==> editor_path(cmd, macos, w) is None,
        project_on(cmd) is Some && !w.is_absolute ==> editor_path(cmd, macos, w) is None,
        project_on(cmd) is None && !(macos && w.cwd_is_absolute) ==> editor_path(cmd, macos, w)
            is None,
{
}

/// Whether positions come in order, each once, from the first `n`.
pub open spec fn ascending(at: Seq<int>, n: int) -> bool {
    &&& forall|k: int| 0 <= k < at.len() ==> 0 <= #[trigger] at[k] < n
    &&& forall|j: int, k: int| 0 <= j < k < at.len() ==> #[trigger] at[j] < #[trigger] at[k]
}

/// The Editors are some of the processes, in their order, each with its own project.
pub proof fn editors_are_processes_in_order(
    processes: Seq<ProcessView>,
    macos: bool,
    found: Seq<WhereView>,
    n: nat,
) -> (at: Seq<int>)
    requires
        n <= processes.len(),
        n <= found.len(),
    ensures
        ascending(at, n as int),
        at.len() == editors_of(processes, macos, found, n).len(),
        forall|k: int|
            0 <= k < at.len() ==> {
                let e = #[trigger] editors_of(processes, macos, found, n)[k];
                e.1 == processes[at[k]].pid && editor_path(
                    processes[at[k]].cmd,
                    macos,
                    found[at[k]],
                ) == Some(e.0)
            },
    decreases n,
{
    if n == 0 {
        seq![]
    } else {
        let at = editors_are_processes_in_order(processes, macos, found, (n - 1) as nat);
        match editor_path(processes[n - 1].cmd, macos, found[n - 1]) {
            Some(_) => at.push(n - 1),
            None => at,
        }
    }
}

// ---------------------------------------------------------------------------
// Instances
// ---------------------------------------------------------------------------
/// What is found on disk and on the wire about one running Editor.
pub struct EditorFacts {
    pub project_path: String,
    /// The last component of the path.
    pub file_name: Option<String>,
    /// The process id from the process table.
    pub pid: u32,
    /// Whether the project has an `Assets` directory.
    pub is_project: bool,
    /// The text of the package manifest.
    pub manifest: Option<String>,
    /// The text of `Packages/packages-lock.json`.
    pub lock: Option<String>,
    /// The text of `Packages/com.unity.pipeline/package.json`.
    pub package: Option<String>,
    /// Whether `Packages/com.unity.pipeline` is a directory.
    pub package_dir: bool,
    /// The port descriptor (see [`read_editor_descriptor`]).
    pub descriptor: Option<PortDescriptor>,
    /// Whether the server of the descriptor answers.
    pub answers: bool,
    /// The text of `ProjectSettings/ProjectVersion.txt`.
    pub version_file: Option<String>,
}

/// What an [`EditorFacts`] holds.
pub struct FactsView {
    pub project_path: Seq<char>,
    pub file_name: Option<Seq<char>>,
    pub pid: u32,
    pub is_project: bool,
    pub manifest: Option<Seq<char>>,
    pub lock: Option<Seq<char>>,
    pub package: Option<Seq<char>>,
    pub package_dir: bool,
    pub descriptor: Option<DescriptorView>,
    pub answers: bool,
    pub version_file: Option<Seq<char>>,
}

impl View for EditorFacts {
    type V = FactsView;

    open spec fn view(&self) -> FactsView {
        FactsView {
            project_path: self.project_path@,
            file_name: crate::text::opt_view(self.file_name),
            pid: self.pid,
            is_project: self.is_project,
            manifest: crate::text::opt_view(self.manifest),
            lock: crate::text::opt_view(self.lock),
            package: crate::text::opt_view(self.package),
            package_dir: self.package_dir,
            descriptor: opt_descriptor(self.descriptor),
            answers: self.answers,
            version_file: crate::text::opt_view(self.version_file),
        }
    }
}

/// The record of one Editor, given whether its project has the Pipeline package and which
/// version. The descriptor is authoritative once the Editor has written one.
pub open spec fn record_of(f: FactsView, has_pipeline: bool, version: Option<Seq<char>>) -> InstanceView {
    let descriptor = if has_pipeline {
        f.descriptor
    } else {
        None
    };
    InstanceView {
        project_path: f.project_path,
        project_name: match descriptor {
            Some(DescriptorView { project_name: Some(name), .. }) if name.len() > 0 => name,
            _ => match f.file_name {
                Some(name) => name,
                None => f.project_path,
            },
        },
        pid: match descriptor {
            Some(DescriptorView { pid: Some(p), .. }) => p,
            _ => f.pid,
        },
        unity_version: match descriptor {
            Some(DescriptorView { unity_version: Some(v), .. }) => Some(v),
            _ => version_of(f.version_file),
        },
        has_pipeline,
        pipeline_version: if has_pipeline {
            version
        } else {
            None
        },
        descriptor,
        is_reachable: descriptor is Some && f.answers,
    }
}

/// The record of one Editor.
pub open spec fn instance_of(f: FactsView) -> InstanceView {
    record_of(
        f,
        pipeline_installed(f.manifest, f.package_dir),
        version_in(file_value(f.lock), file_value(f.manifest), file_value(f.package)),
    )
}

/// The records of the first `n` Editors whose directory is a Unity project.
pub open spec fn instances_of(facts: Seq<FactsView>, n: nat) -> Seq<InstanceView>
    decreases n,
{
    if n == 0 || n > facts.len() {
        seq![]
    } else {
        let before = instances_of(facts, (n - 1) as nat);
        if facts[n - 1].is_project {
            before.push(instance_of(facts[n - 1]))
        } else {
            before
        }
    }
}

/// The string slice in an optional string.
pub fn opt_slice(s: &Option<String>) -> (r: Option<&str>)
    ensures
        crate::text::opt_str_view(r) == crate::text::opt_view(*s),
{
    match s {
        Some(x) => Some(x.as_str()),
        None => None,
    }
}

/// The record of one Editor, given whether its project has the Pipeline package and which
/// version.
pub fn editor_record(f: &EditorFacts, has_pipeline: bool, version: Option<String>) -> (r:
    EditorInstance)
    ensures
        r@ == record_of(f@, has_pipeline, crate::text::opt_view(version)),
{
    let descriptor: Option<PortDescriptor> = if has_pipeline {
        match &f.descriptor {
            Some(d) => Some(d.clone()),
            None => None,
        }
    } else {
        None
    };
    let from_path = match &f.file_name {
        Some(name) => name.clone(),
        None => f.project_path.clone(),
    };
    let is_reachable = descriptor.is_some() && f.answers;
    let mut project_name = from_path;
    let mut pid: u32 = f.pid;
    let mut named_version: Option<String> = None;
    match &descriptor {
        Some(d) => {
            match &d.project_name {
                Some(name) => {
                    if !name.as_str().is_empty() {
                        project_name = name.clone();
                    }
                },
                None => {},
            }
            match d.pid {
                Some(p) => {
                    pid = p;
                },
                None => {},
            }
            named_version = copy_opt(&d.unity_version);
        },
        None => {},
    }
    let unity_version = if named_version.is_some() {
        named_version
    } else {
        get_unity_project_version(opt_slice(&f.version_file))
    };
    EditorInstance {
        project_path: f.project_path.clone(),
        project_name,
        pid,
        unity_version,
        has_pipeline,
        pipeline_version: if has_pipeline {
            version
        } else {
            None
        },
        descriptor,
        is_reachable,
    }
}

/// The views of a list of facts.
pub open spec fn facts_views(v: Seq<EditorFacts>) -> Seq<FactsView> {
    Seq::new(v.len(), |i: int| v[i]@)
}

/// The records of the running Editors whose directory is a Unity project, in order.
pub fn discover_editor_instances(found: &Vec<EditorFacts>) -> (r: Vec<EditorInstance>)
    ensures
        crate::pipeline::instance_views(r@) == instances_of(facts_views(found@), found@.len()),
{
    let ghost all = facts_views(found@);
    let mut out: Vec<EditorInstance> = Vec::new();
    let mut i: usize = 0;
    assert(crate::pipeline::instance_views(out@) =~= instances_of(all, 0));
    while i < found.len()
        invariant
            i <= found@.len(),
            all == facts_views(found@),
            crate::pipeline::instance_views(out@) == instances_of(all, i as nat),
        decreases found@.len() - i,
    {
        let f = &found[i];
        if f.is_project {
            let ghost before = out@;
            let has_pipeline = is_pipeline_installed(opt_slice(&f.manifest), f.package_dir);
            let version = get_pipeline_version(
                opt_slice(&f.lock),
                opt_slice(&f.manifest),
                opt_slice(&f.package),
            );
            let inst = editor_record(f, has_pipeline, version);
            out.push(inst);
            assert(crate::pipeline::instance_views(out@) =~= crate::pipeline::instance_views(
                before,
            ).push(inst@));
        }
        i = i + 1;
    }
    out
}

// ---------------------------------------------------------------------------
// Laws
// ---------------------------------------------------------------------------
/// Where the directory of the Pipeline package is there the package counts as installed, whatever
/// the manifest holds, can be read or not, or is absent.
pub proof fn package_directory_is_enough(manifest: Option<Seq<char>>)
    ensures
        pipeline_installed(manifest, true),
{
}

/// Without the directory of the package, the package is installed exactly where the manifest can be
/// read and names it among its dependencies.
pub proof fn manifest_decides_otherwise(text: Seq<char>)
    ensures
        !pipeline_installed(None, false),
        crate::parse::parsed_json(text) is Err ==> !pipeline_installed(Some(text), false),
        crate::parse::parsed_json(text) matches Ok(v) ==> (pipeline_installed(Some(text), false) == (
        crate::json::step(crate::json::field(v, "dependencies"@), "com.unity.pipeline"@) is Some)),
{
    match crate::parse::parsed_json(text) {
        Ok(v) => match crate::json::field(v, "dependencies"@) {
            Some(JsonView::Object(deps)) => crate::json::member_found(
                deps,
                "com.unity.pipeline"@,
            ),
            _ => {},
        },
        Err(_) => {},
    }
}

/// The version of the package is the one that the lock file names; where it names none, or is not
/// there, the one in the manifest; and where that names none either, the one of the embedded
/// package.
pub proof fn locked_version_comes_first(
    lock: Option<JsonView>,
    manifest: Option<JsonView>,
    package: Option<JsonView>,
    v: Seq<char>,
)
    ensures
        ({
            let locked = crate::json::step(
                crate::json::step(
                    crate::json::step(lock, "dependencies"@),
                    "com.unity.pipeline"@,
                ),
                "version"@,
            );
            let listed = crate::json::step(
                crate::json::step(manifest, "dependencies"@),
                "com.unity.pipeline"@,
            );
            let own = crate::json::step(package, "version"@);
            let found = version_in(lock, manifest, package);
            &&& locked == Some(JsonView::Str(v)) ==> found == Some(v)
            &&& !(locked matches Some(JsonView::Str(_))) && listed == Some(JsonView::Str(v))
                ==> found == Some(v)
            &&& !(locked matches Some(JsonView::Str(_))) && !(listed matches Some(JsonView::Str(_)))
                && own == Some(JsonView::Str(v)) ==> found == Some(v)
            &&& !(locked matches Some(JsonView::Str(_))) && !(listed matches Some(JsonView::Str(_)))
                && !(own matches Some(JsonView::Str(_))) ==> found is None
        }),
{
}

proof fn lemma_version_from(all: Seq<Seq<char>>, from: int, i: int)
    requires
        0 <= from <= i <= all.len(),
        forall|j: int| from <= j < i ==> !"m_EditorVersion:"@.is_prefix_of(#[trigger] all[j]),
    ensures
        version_from(all, from) == version_from(all, i),
    decreases i - from,
{
    if from < i {
        assert(!"m_EditorVersion:"@.is_prefix_of(all[from]));
        lemma_version_from(all, from + 1, i);
    }
}

/// The version of the Editor is what the first line that starts with its key names, without white
/// space around it.
pub proof fn first_version_line_counts(content: Seq<char>, i: int, version: Seq<char>)
    requires
        0 <= i < crate::text::lines_of(content).len(),
        crate::text::lines_of(content)[i] == "m_EditorVersion:"@ + version,
        forall|j: int|
            0 <= j < i ==> !"m_EditorVersion:"@.is_prefix_of(
                #[trigger] crate::text::lines_of(content)[j],
            ),
    ensures
        version_of(Some(content)) == Some(crate::text::trim_of(version)),
        version_of(None) is None,
{
    let all = crate::text::lines_of(content);
    lemma_version_from(all, 0, i);
    let key = "m_EditorVersion:"@;
    assert((key + version).skip(key.len() as int) =~= version);
    assert(key.is_prefix_of(key + version));
}

/// A text without such a line names no version.
pub proof fn no_version_line_names_none(content: Seq<char>)
    requires
        forall|j: int|
            0 <= j < crate::text::lines_of(content).len() ==> !"m_EditorVersion:"@.is_prefix_of(
                #[trigger] crate::text::lines_of(content)[j],
            ),
    ensures
        version_of(Some(content)) is None,
{
    lemma_version_from(
        crate::text::lines_of(content),
        0,
        crate::text::lines_of(content).len() as int,
    );
}

/// A port descriptor counts as it is, unless it names no port.
pub proof fn descriptors_name_a_port(d: DescriptorView)
    ensures
        d.port != 0 ==> valid_descriptor(Some(d)) == Some(d),
        d.port == 0 ==> valid_descriptor(Some(d)) is None,
        valid_descriptor(None) is None,
{
}

/// White space and the word behind it, at the start of a text, are told apart.
pub proof fn leading_words_are_found(white: Seq<char>, word: Seq<char>, rest: Seq<char>)
    requires
        white.len() > 0,
        word.len() > 0,
        forall|i: int| 0 <= i < white.len() ==> crate::text::is_white(#[trigger] white[i]),
        forall|i: int| 0 <= i < word.len() ==> !crate::text::is_white(#[trigger] word[i]),
        rest.len() > 0 ==> crate::text::is_white(rest[0]),
    ensures
        leading_token(white + word + rest) == Some((white, word)),
{
    let s = white + word + rest;
    let a = white.len() as int;
    let b = a + word.len();
    crate::text::lemma_skip_white(s, 0);
    let i = crate::text::skip_white(s, 0);
    if i < a {
        assert(s[i] == white[i]);
    }
    if i > a {
        assert(s[a] == word[0]);
    }
    crate::text::lemma_skip_word(s, a);
    let j = crate::text::skip_word(s, a);
    if j < b {
        assert(s[j] == word[j - a]);
    }
    if j > b {
        assert(s[b] == rest[0]);
    }
    assert(s.take(a) =~= white);
    assert(s.subrange(a, b) =~= word);
}

/// An unquoted path may be itself, and then itself with one more word at a time of what follows it,
/// with the white space in between; no further than its words go, or than they are counted.
pub proof fn candidates_grow_by_words(
    candidate: Seq<char>,
    white: Seq<char>,
    word: Seq<char>,
    rest: Seq<char>,
    more: nat,
)
    requires
        white.len() > 0,
        word.len() > 0,
        forall|i: int| 0 <= i < white.len() ==> crate::text::is_white(#[trigger] white[i]),
        forall|i: int| 0 <= i < word.len() ==> !crate::text::is_white(#[trigger] word[i]),
        rest.len() > 0 ==> crate::text::is_white(rest[0]),
    ensures
        candidates_of(candidate, white + word + rest, more + 1) == seq![candidate]
            + candidates_of(candidate + white + word, rest, more),
        candidates_of(candidate, rest, 0) == seq![candidate],
        candidates_of(candidate, white, more) == seq![candidate],
        candidates_of(candidate, seq![], more) == seq![candidate],
{
    leading_words_are_found(white, word, rest);
    assert((white + word + rest).skip((white.len() + word.len()) as int) =~= rest);
    crate::text::lemma_skip_white(white, 0);
    crate::text::lemma_skip_word(white, crate::text::skip_white(white, 0));
    let i = crate::text::skip_white(white, 0);
    if i < white.len() {
        assert(crate::text::is_white(white[i]));
    }
    assert(leading_token(white) is None);
    assert(seq![candidate] + Seq::<Seq<char>>::empty() =~= seq![candidate]);
}

proof fn lemma_first_project(candidates: Seq<Seq<char>>, has_assets: Seq<bool>, from: int, to: int)
    requires
        0 <= from <= to <= candidates.len(),
        to <= has_assets.len(),
        forall|j: int| from <= j < to ==> !#[trigger] has_assets[j],
    ensures
        first_project(candidates, has_assets, from) == first_project(candidates, has_assets, to),
    decreases to - from,
{
    if from < to {
        assert(!has_assets[from]);
        lemma_first_project(candidates, has_assets, from + 1, to);
    }
}

/// An unquoted path is the first of its candidates that is a project, and stays as it was read
/// where none is. There are at most ten more words.
pub proof fn first_project_is_taken(
    candidate: Seq<char>,
    remainder: Seq<char>,
    has_assets: Seq<bool>,
    i: int,
)
    requires
        0 <= i < has_assets.len(),
        i < candidates_of(candidate, remainder, 10).len(),
        forall|j: int| 0 <= j < i ==> !#[trigger] has_assets[j],
    ensures
        has_assets[i] ==> extended_path(candidate, remainder, has_assets) == candidates_of(
            candidate,
            remainder,
            10,
        )[i],
        extended_path(candidate, remainder, Seq::new(has_assets.len(), |k: int| false))
            == candidate,
{
    let all = candidates_of(candidate, remainder, 10);
    lemma_first_project(all, has_assets, 0, i);
    let none = Seq::new(has_assets.len(), |k: int| false);
    let n = if all.len() < none.len() {
        all.len() as int
    } else {
        none.len() as int
    };
    lemma_first_project(all, none, 0, n);
}

/// At most ten words are added to an unquoted path.
pub proof fn candidates_are_few(candidate: Seq<char>, rest: Seq<char>, more: nat)
    ensures
        1 <= candidates_of(candidate, rest, more).len() <= more + 1,
        candidates_of(candidate, rest, more)[0] == candidate,
    decreases more,
{
    if more > 0 {
        match leading_token(rest) {
            Some((white, word)) => candidates_are_few(
                candidate + white + word,
                rest.skip((white.len() + word.len()) as int),
                (more - 1) as nat,
            ),
            None => {},
        }
    }
}

proof fn lemma_flag_from(s: Seq<char>, flag: Seq<char>, from: int, to: int)
    requires
        0 <= from <= to <= s.len(),
        forall|j: int| from <= j < to ==> !#[trigger] whole_word_at(s, flag, j),
    ensures
        flag_end_from(s, flag, from) == flag_end_from(s, flag, to),
    decreases to - from,
{
    if from < to {
        assert(!whole_word_at(s, flag, from));
        lemma_flag_from(s, flag, from + 1, to);
    }
}

proof fn lemma_flag_bound(s: Seq<char>, flag: Seq<char>, from: int)
    requires
        0 <= from,
    ensures
        flag_end_from(s, flag, from) matches Some(e) ==> exists|i: int|
            from <= i && #[trigger] whole_word_at(s, flag, i) && e == i + flag.len(),
    decreases s.len() - from,
{
    if from <= s.len() && !whole_word_at(s, flag, from) && from < s.len() {
        lemma_flag_bound(s, flag, from + 1);
    }
}

/// A flag that names the project is found as a whole word: between white space or the ends of the
/// line. The first one counts, whichever of the two it is; a part of a word does not.
pub proof fn project_flags_are_found(s: Seq<char>, a: Seq<char>, flag: Seq<char>, b: Seq<char>)
    requires
        flag == "-projectpath"@ || flag == "-createproject"@,
        a.len() == 0 || a.last() == ' ' || a.last() == '\t' || a.last() == '\n' || a.last() == '\r'
            || a.last() == '\u{c}',
        b.len() == 0 || b[0] == ' ' || b[0] == '\t' || b[0] == '\n' || b[0] == '\r' || b[0]
            == '\u{c}',
        s == a + flag + b,
        forall|i: int|
            0 <= i < a.len() && #[trigger] crate::text::occurs_at(s, "-projectpath"@, i) ==> (i > 0
                && !crate::text::is_ascii_white(s[i - 1])) || (i + 12 < s.len()
                && !crate::text::is_ascii_white(s[i + 12])),
        forall|i: int|
            0 <= i < a.len() && #[trigger] crate::text::occurs_at(s, "-createproject"@, i) ==> (i > 0
                && !crate::text::is_ascii_white(s[i - 1])) || (i + 14 < s.len()
                && !crate::text::is_ascii_white(s[i + 14])),
    ensures
        flag_end_of(s, project_flags(), 2) == Some((a.len() + flag.len()) as int),
{
    let n = a.len() as int;
    let f0 = "-projectpath"@;
    let f1 = "-createproject"@;
    reveal_strlit("-projectpath");
    reveal_strlit("-createproject");
    assert(f0.len() == 12 && f1.len() == 14);
    assert(project_flags()[0] == f0 && project_flags()[1] == f1);
    assert(s.subrange(n, n + flag.len()) =~= flag);
    assert(crate::text::occurs_at(s, flag, n));
    if n > 0 {
        assert(s[n - 1] == a.last());
    }
    if b.len() > 0 {
        assert(s[(n + flag.len()) as int] == b[0]);
    }
    assert(whole_word_at(s, flag, n));
    assert forall|j: int| 0 <= j < n implies !#[trigger] whole_word_at(s, f0, j) by {
    }
    assert forall|j: int| 0 <= j < n implies !#[trigger] whole_word_at(s, f1, j) by {
    }
    lemma_flag_from(s, f0, 0, n);
    lemma_flag_from(s, f1, 0, n);
    lemma_flag_bound(s, f0, n);
    lemma_flag_bound(s, f1, n);
    let other = if flag == f0 {
        f1
    } else {
        f0
    };
    assert(flag[1] != other[1]);
    assert(s[n + 1] == flag[1]);
    assert(!whole_word_at(s, other, n)) by {
        if crate::text::occurs_at(s, other, n) {
            assert(s.subrange(n, n + other.len())[1] == s[n + 1]);
        }
    }
    match flag_end_from(s, other, n) {
        Some(e) => {
            let i = choose|i: int|
                n <= i && #[trigger] whole_word_at(s, other, i) && e == i + other.len();
            assert(i > n);
            if i < n + flag.len() {
                assert(s.subrange(i, i + other.len())[0] == s[i]);
                assert(s[i] == flag[i - n]);
                assert(flag[i - n] == '-');
                assert(i == n);
            }
        },
        None => {},
    }
    reveal_with_fuel(flag_end_of, 3);
}

/// A line on which neither flag occurs, or only as part of a longer word, names no project.
pub proof fn no_flag_names_no_project(cmd: Seq<char>, s: Seq<char>)
    requires
        s == crate::text::ascii_lower(cmd),
        forall|i: int| #[trigger]
            crate::text::occurs_at(s, "-projectpath"@, i) ==> (i > 0
                && !crate::text::is_ascii_white(s[i - 1])) || (i + 12 < s.len()
                && !crate::text::is_ascii_white(s[i + 12])),
        forall|i: int| #[trigger]
            crate::text::occurs_at(s, "-createproject"@, i) ==> (i > 0
                && !crate::text::is_ascii_white(s[i - 1])) || (i + 14 < s.len()
                && !crate::text::is_ascii_white(s[i + 14])),
    ensures
        project_on(cmd) is None,
{
    reveal_strlit("-projectpath");
    reveal_strlit("-createproject");
    let f0 = "-projectpath"@;
    let f1 = "-createproject"@;
    assert(project_flags()[0] == f0 && project_flags()[1] == f1);
    lemma_flag_bound(s, f0, 0);
    lemma_flag_bound(s, f1, 0);
    assert(f0.len() == 12 && f1.len() == 14);
    assert forall|i: int| !#[trigger] whole_word_at(s, f0, i) by {
    }
    assert forall|i: int| !#[trigger] whole_word_at(s, f1, i) by {
    }
    reveal_with_fuel(flag_end_of, 3);
}

proof fn lemma_value_end(s: Seq<char>, cursor: int, to: int)
    requires
        0 <= cursor <= to <= s.len(),
        cursor < to ==> !is_blank(s[to - 1]),
        forall|k: int|
            cursor <= k < to - 1 && is_blank(#[trigger] s[k]) ==> s[k + 1] != '-' || k + 2
                >= s.len() || crate::text::is_ascii_white(s[k + 2]),
    ensures
        value_end(s, cursor) == value_end(s, to),
    decreases to - cursor,
{
    if cursor < to {
        if is_blank(s[cursor]) {
            let j = skip_blanks(s, cursor);
            lemma_skip_blanks(s, cursor);
            if j >= to {
                assert(is_blank(s[to - 1]));
            }
            assert(j > cursor) by {
                if j == cursor {
                    assert(!is_blank(s[j]));
                }
            }
            assert(is_blank(s[j - 1]));
            assert(s[j - 1 + 1] != '-' || j + 1 >= s.len() || crate::text::is_ascii_white(
                s[j - 1 + 2],
            ));
            lemma_value_end(s, j, to);
        } else {
            lemma_value_end(s, cursor + 1, to);
        }
    }
}

/// An unquoted value, with single words or with blanks inside that no flag follows, goes on up to
/// the next flag or to the end of the line, and comes out as it was written, with what follows it.
/// A dash that stands alone is no flag.
pub proof fn unquoted_path_is_extracted(
    cmd_line: Seq<char>,
    end: int,
    blanks: Seq<char>,
    path: Seq<char>,
    gap: Seq<char>,
    rest: Seq<char>,
)
    requires
        flag_end_of(crate::text::ascii_lower(cmd_line), project_flags(), 2) == Some(end),
        0 <= end <= cmd_line.len(),
        cmd_line.skip(end) == blanks + path + gap + rest,
        forall|i: int| 0 <= i < blanks.len() ==> is_blank(#[trigger] blanks[i]),
        path.len() > 0,
        path[0] != ' ' && path[0] != '\t' && path[0] != '"' && path[0] != '\'',
        !crate::text::is_white(path.last()),
        forall|k: int|
            0 <= k < path.len() - 1 && is_blank(#[trigger] path[k]) ==> path[k + 1] != '-' || k + 2
                == path.len() || crate::text::is_ascii_white(path[k + 2]),
        forall|i: int| 0 <= i < gap.len() ==> is_blank(#[trigger] gap[i]),
        gap.len() == 0 ==> rest.len() == 0,
        rest.len() > 0 ==> rest.len() > 1 && rest[0] == '-' && !crate::text::is_ascii_white(
            rest[1],
        ),
    ensures
        rest.len() > 0 ==> project_on(cmd_line) == Some((path, false, gap + rest)),
        rest.len() == 0 ==> project_on(cmd_line) == Some((path, false, rest)),
{
    let s = cmd_line;
    let tail = s.skip(end);
    let i = end + blanks.len();
    let e = i + path.len();
    assert(tail.len() == blanks.len() + path.len() + gap.len() + rest.len());
    assert forall|j: int| end <= j < i implies is_blank(#[trigger] s[j]) by {
        assert(s[j] == tail[j - end]);
        assert(blanks[j - end] == tail[j - end]);
    }
    assert(s[i as int] == tail[blanks.len() as int]);
    assert(s[i as int] == path[0]);
    lemma_skip_blanks_is(s, end, i as int);
    assert forall|k: int| i <= k < e implies #[trigger] s[k] == path[k - i] by {
        assert(s[k] == tail[k - end]);
    }
    assert(!is_blank(s[e - 1])) by {
        assert(s[e - 1] == path.last());
    }
    let g = e + gap.len();
    assert forall|k: int| e <= k < g implies is_blank(#[trigger] s[k]) by {
        assert(s[k] == tail[k - end]);
        assert(gap[k - e] == tail[k - end]);
    }
    assert forall|k: int| i <= k < e - 1 && is_blank(#[trigger] s[k]) implies s[k + 1] != '-' || k
        + 2 >= s.len() || crate::text::is_ascii_white(s[k + 2]) by {
        assert(is_blank(path[k - i]));
        assert(s[k + 1] == path[k - i + 1]);
        if k + 2 < e {
            assert(s[k + 2] == path[k - i + 2]);
        } else if k + 2 < s.len() {
            assert(gap.len() > 0);
            assert(is_blank(s[e as int]));
        }
    }
    lemma_value_end(s, i as int, e as int);
    let stop = if rest.len() > 0 {
        e
    } else {
        s.len() as int
    };
    if rest.len() > 0 {
        assert(s[g as int] == tail[g - end]);
        assert(s[g as int] == rest[0]);
        assert(s[g + 1] == tail[g + 1 - end]);
        assert(s[g + 1] == rest[1]);
        lemma_skip_blanks_is(s, e as int, g as int);
        assert(is_blank(s[e as int]));
    } else {
        assert(g == s.len());
        if gap.len() > 0 {
            assert(is_blank(s[e as int]));
            lemma_skip_blanks(s, e as int);
            let j = skip_blanks(s, e as int);
            if j < s.len() {
                assert(is_blank(s[j]));
            }
            assert(j == s.len());
            assert(value_end(s, j) == j);
        }
    }
    assert(value_end(s, i as int) == stop);
    let text = s.subrange(i as int, stop);
    assert(text.take(path.len() as int) =~= path);
    crate::text::lemma_drop_white(text, text.len() as int);
    let d = crate::text::drop_white(text, text.len() as int);
    assert(text[path.len() - 1] == path.last());
    if d < path.len() {
        assert(crate::text::is_white(text[path.len() - 1]));
    }
    if d > path.len() {
        assert(is_blank(s[i + d - 1]));
    }
    assert(crate::text::trim_end_of(text) =~= path);
    if rest.len() > 0 {
        assert(s.skip(e as int) =~= gap + rest) by {
            assert forall|j: int| 0 <= j < (gap + rest).len() implies s.skip(e as int)[j]
                == #[trigger] (gap + rest)[j] by {
                assert(s[e + j] == tail[e + j - end]);
            }
        }
    } else {
        assert(s.skip(stop) =~= rest);
    }
}

/// A flag that nothing follows names no project, and neither does a quote that is never closed.
pub proof fn missing_values_name_no_project(
    cmd_line: Seq<char>,
    end: int,
    blanks: Seq<char>,
    quote: char,
    text: Seq<char>,
)
    requires
        flag_end_of(crate::text::ascii_lower(cmd_line), project_flags(), 2) == Some(end),
        0 <= end <= cmd_line.len(),
        forall|i: int| 0 <= i < blanks.len() ==> is_blank(#[trigger] blanks[i]),
        quote == '"' || quote == '\'',
        !text.contains(quote),
    ensures
        cmd_line.skip(end) == blanks ==> project_on(cmd_line) is None,
        cmd_line.skip(end) == blanks + seq![quote] + text ==> project_on(cmd_line) is None,
{
    let s = cmd_line;
    let tail = s.skip(end);
    let i = end + blanks.len();
    let open = blanks + seq![quote] + text;
    assert(open.len() == blanks.len() + 1 + text.len());
    assert(tail.len() == s.len() - end);
    if tail == blanks || tail == open {
        assert forall|j: int| end <= j < i implies is_blank(#[trigger] s[j]) by {
            assert(s[j] == tail[j - end]);
            assert(blanks[j - end] == tail[j - end]);
        }
        if tail == blanks {
            lemma_skip_blanks(s, end);
            let j = skip_blanks(s, end);
            if j < s.len() {
                assert(is_blank(s[j]));
            }
        } else {
            assert(s[i as int] == tail[blanks.len() as int]);
            assert(s[i as int] == quote);
            lemma_skip_blanks_is(s, end, i as int);
            assert forall|j: int| i + 1 <= j < s.len() implies #[trigger] s[j] != quote by {
                assert(s[j] == tail[j - end]);
                assert(text[j - i - 1] == tail[j - end]);
                assert(text.contains(text[j - i - 1]));
            }
            crate::text::lemma_seek_step(s, quote, i + 1, s.len() as int);
        }
    }
}

/// A helper process is told by its command line.
pub proof fn helpers_are_recognised(a: Seq<char>, b: Seq<char>, cmd: Seq<char>)
    ensures
        worker(a + "AssetImportWorker"@ + b),
        worker(a + "-batchmode"@ + b),
        crate::text::contains_seq(cmd, "-name"@) && crate::text::contains_seq(cmd, "AssetImport"@)
            ==> worker(cmd),
        !crate::text::contains_seq(cmd, "AssetImportWorker"@) && !crate::text::contains_seq(
            cmd,
            "-batchmode"@,
        ) && !crate::text::contains_seq(cmd, "AssetImport"@) ==> !worker(cmd),
        !crate::text::contains_seq(cmd, "AssetImportWorker"@) && !crate::text::contains_seq(
            cmd,
            "-batchmode"@,
        ) && !crate::text::contains_seq(cmd, "-name"@) ==> !worker(cmd),
{
    crate::text::lemma_holds_middle(a, "AssetImportWorker"@, b);
    crate::text::lemma_holds_middle(a, "-batchmode"@, b);
}

/// An Editor whose command line names its project by an absolute path counts with that path in its
/// plain form; one that names none counts on macOS with its working directory.
pub proof fn editors_count_with_their_projects(
    cmd: Seq<char>,
    macos: bool,
    w: WhereView,
    path: Seq<char>,
    quoted: bool,
    remainder: Seq<char>,
)
    requires
        cmd.len() > 0,
        !worker(cmd),
        macos ==> "/Unity.app/Contents/MacOS/Unity"@.is_suffix_of(
            crate::text::first_word_of(cmd),
        ),
    ensures
        project_on(cmd) == Some((path, true, remainder)) && w.is_absolute && w.canonical is None
            ==> editor_path(cmd, macos, w) == Some(path),
        project_on(cmd) == Some((path, false, remainder)) && w.is_absolute && w.canonical is None
            ==> editor_path(cmd, macos, w) == Some(extended_path(path, remainder, w.has_assets)),
        project_on(cmd) is None && macos && w.cwd_is_absolute && w.canonical is None
            ==> editor_path(cmd, macos, w) == w.cwd,
        project_on(cmd) is None && !macos ==> editor_path(cmd, macos, w) is None,
{
}

/// On macOS only the main process of an Editor counts.
pub proof fn only_main_processes_count(cmd: Seq<char>, w: WhereView)
    requires
        !"/Unity.app/Contents/MacOS/Unity"@.is_suffix_of(crate::text::first_word_of(cmd)),
    ensures
        editor_path(cmd, true, w) is None,
{
}

/// A path in its plain form is its canonical one, without the prefix that Windows puts in front.
pub proof fn plain_paths_have_no_prefix(path: Seq<char>, c: Seq<char>)
    ensures
        plain_path(path, None) == path,
        plain_path(path, Some("\\\\?\\"@ + c)) == c,
        !"\\\\?\\"@.is_prefix_of(c) ==> plain_path(path, Some(c)) == c,
{
    let p = "\\\\?\\"@;
    assert((p + c).skip(p.len() as int) =~= c);
    assert(p.is_prefix_of(p + c));
}

/// The record of an Editor: whether it has the package decides what else is known of it. The port
/// descriptor is authoritative once the Editor has written one.
pub proof fn records_follow_the_descriptor(f: FactsView, version: Option<Seq<char>>, d: DescriptorView)
    ensures
        ({
            let bare = record_of(f, false, version);
            &&& bare.project_path == f.project_path
            &&& !bare.has_pipeline && bare.pipeline_version is None && bare.descriptor is None
            &&& !bare.is_reachable
            &&& bare.pid == f.pid
            &&& bare.unity_version == version_of(f.version_file)
            &&& f.file_name matches Some(name) ==> bare.project_name == name
            &&& f.file_name is None ==> bare.project_name == f.project_path
        }),
        ({
            let r = record_of(f, true, version);
            &&& r.project_path == f.project_path
            &&& r.has_pipeline && r.pipeline_version == version && r.descriptor == f.descriptor
            &&& r.is_reachable == (f.descriptor is Some && f.answers)
            &&& f.descriptor == Some(d) ==> {
                &&& d.pid matches Some(p) ==> r.pid == p
                &&& d.pid is None ==> r.pid == f.pid
                &&& d.unity_version is Some ==> r.unity_version == d.unity_version
                &&& d.unity_version is None ==> r.unity_version == version_of(f.version_file)
                &&& d.project_name matches Some(name) ==> name.len() > 0 ==> r.project_name == name
                &&& (d.project_name is None || d.project_name == Some(Seq::<char>::empty())) ==> (
                f.file_name matches Some(name) ==> r.project_name == name)
                &&& (d.project_name is None || d.project_name == Some(Seq::<char>::empty())) ==> (
                f.file_name is None ==> r.project_name == f.project_path)
            }
            &&& f.descriptor is None ==> r.pid == f.pid && r.unity_version == version_of(
                f.version_file,
            )
        }),
{
}

/// The Editors that are listed are those whose directory is a project, in their order, each with
/// its own record. `at` says which each is.
pub proof fn instances_are_the_projects(facts: Seq<FactsView>, n: nat) -> (at: Seq<int>)
    requires
        n <= facts.len(),
    ensures
        ascending(at, n as int),
        at.len() == instances_of(facts, n).len(),
        forall|k: int|
            0 <= k < at.len() ==> facts[#[trigger] at[k]].is_project && instances_of(facts, n)[k]
                == record_of(
                facts[at[k]],
                pipeline_installed(facts[at[k]].manifest, facts[at[k]].package_dir),
                version_in(
                    file_value(facts[at[k]].lock),
                    file_value(facts[at[k]].manifest),
                    file_value(facts[at[k]].package),
                ),
            ),
        forall|i: int| 0 <= i < n && (#[trigger] facts[i]).is_project ==> at.contains(i),
    decreases n,
{
    if n == 0 {
        seq![]
    } else {
        let before = instances_are_the_projects(facts, (n - 1) as nat);
        if facts[n - 1].is_project {
            let at = before.push(n - 1);
            assert forall|i: int| 0 <= i < n && (#[trigger] facts[i]).is_project implies at.contains(
                i,
            ) by {
                if i < n - 1 {
                    let k = choose|k: int| 0 <= k < before.len() && before[k] == i;
                    assert(at[k] == i);
                } else {
                    assert(at[before.len() as int] == i);
                }
            }
            at
        } else {
            before
        }
    }
}

/// Every Editor among the processes is listed.
pub proof fn every_editor_is_listed(
    processes: Seq<ProcessView>,
    macos: bool,
    found: Seq<WhereView>,
    n: nat,
    i: int,
)
    requires
        n <= processes.len(),
        n <= found.len(),
        0 <= i < n,
    ensures
        editor_path(processes[i].cmd, macos, found[i]) matches Some(path) ==> editors_of(
            processes,
            macos,
            found,
            n,
        ).contains((path, processes[i].pid)),
    decreases n,
{
    let all = editors_of(processes, macos, found, n);
    let before = editors_of(processes, macos, found, (n - 1) as nat);
    if i < n - 1 {
        every_editor_is_listed(processes, macos, found, (n - 1) as nat, i);
        match editor_path(processes[i].cmd, macos, found[i]) {
            Some(path) => {
                let k = choose|k: int|
                    0 <= k < before.len() && before[k] == (path, processes[i].pid);
                assert(all[k] == before[k]);
            },
            None => {},
        }
    } else {
        match editor_path(processes[i].cmd, macos, found[i]) {
            Some(path) => {
                assert(all[before.len() as int] == (path, processes[i].pid));
            },
            None => {},
        }
    }
}

/// The program that is looked for is named as the platform names it.
pub proof fn editors_are_looked_for_by_platform(platform: Platform)
    ensures
        platform == Platform::Windows ==> needle_of(platform) == "Unity.exe"@,
        platform == Platform::MacOs ==> needle_of(platform) == "Unity.app/Contents/MacOS/Unity"@,
        platform == Platform::Other ==> needle_of(platform) == "Unity"@,
{
}

/// The offset of what follows a flag counts the bytes of UTF-8 up to the flag's end.
pub proof fn flag_offsets_are_bytes(s: Seq<char>, flags: Seq<Seq<char>>, end: int)
    requires
        0 <= end <= s.len(),
    ensures
        flag_end_of(s, flags, flags.len()) == Some(end) ==> flag_offset_of(s, flags) == Some(
            vstd::utf8::encode_utf8(s.take(end)).len(),
        ),
        flag_end_of(s, flags, flags.len()) is None ==> flag_offset_of(s, flags) is None,
{
}

/// A project is looked for on the command line of an Editor, and on macOS in its working directory
/// where the command line names none. Helpers, and on macOS other processes, lead nowhere.
pub proof fn leads_come_from_editors(
    cmd: Seq<char>,
    macos: bool,
    path: Seq<char>,
    quoted: bool,
    remainder: Seq<char>,
)
    ensures
        ({
            let editor = cmd.len() > 0 && !worker(cmd) && (macos
                ==> "/Unity.app/Contents/MacOS/Unity"@.is_suffix_of(
                crate::text::first_word_of(cmd),
            ));
            &&& !editor ==> lead_of(cmd, macos) is None
            &&& editor && project_on(cmd) == Some((path, quoted, remainder)) ==> lead_of(cmd, macos)
                == Some(LeadView::Flag { path, quoted, remainder })
            &&& editor && project_on(cmd) is None && macos ==> lead_of(cmd, macos) == Some(
                LeadView::WorkingDirectory,
            )
            &&& editor && project_on(cmd) is None && !macos ==> lead_of(cmd, macos) is None
        }),
{
}

/// A lead comes to the quoted path as it is, to the unquoted path with as many words as make it a
/// project, or to the working directory; to nothing where that is not absolute.
pub proof fn leads_come_to_absolute_paths(path: Seq<char>, remainder: Seq<char>, w: WhereView)
    ensures
        w.is_absolute ==> path_of(LeadView::Flag { path, quoted: true, remainder }, w) == Some(path)
            && path_of(LeadView::Flag { path, quoted: false, remainder }, w) == Some(
            extended_path(path, remainder, w.has_assets),
        ),
        !w.is_absolute ==> path_of(LeadView::Flag { path, quoted: true, remainder }, w) is None
            && path_of(LeadView::Flag { path, quoted: false, remainder }, w) is None,
        w.cwd_is_absolute ==> path_of(LeadView::WorkingDirectory, w) == w.cwd,
        !w.cwd_is_absolute ==> path_of(LeadView::WorkingDirectory, w) is None,
{
}

/// A listing that failed has no processes, and one that did not has all of them.
pub proof fn listings_are_taken_whole(v: Vec<ProcessInfo>, e: Failure, i: int)
    requires
        0 <= i < v@.len(),
    ensures
        listed(Ok(v)).len() == v@.len(),
        listed(Ok(v))[i].pid == v@[i].pid,
        listed(Ok(v))[i].cmd == v@[i].cmd@,
        listed(Err(e)).len() == 0,
{
}

/// The view of a descriptor or of an Editor has all that it has.
pub proof fn editors_are_viewed_whole(d: PortDescriptor, e: EditorInstance)
    ensures
        d@.port == d.port,
        d@.eval_token == crate::text::opt_view(d.eval_token),
        d@.info == crate::text::opt_view(d.info),
        d@.mode == crate::text::opt_view(d.mode),
        d@.pid == d.pid,
        d@.project_name == crate::text::opt_view(d.project_name),
        d@.unity_version == crate::text::opt_view(d.unity_version),
        opt_descriptor(Some(d)) == Some(d@),
        opt_descriptor(None) is None,
        e@.project_path == e.project_path@,
        e@.project_name == e.project_name@,
        e@.pid == e.pid,
        e@.unity_version == crate::text::opt_view(e.unity_version),
        e@.has_pipeline == e.has_pipeline,
        e@.pipeline_version == crate::text::opt_view(e.pipeline_version),
        e@.descriptor == opt_descriptor(e.descriptor),
        e@.is_reachable == e.is_reachable,
{
}

/// The view of what is known of a project, or of where a lead goes, has all that is known.
pub proof fn facts_are_viewed_whole(f: EditorFacts, w: Whereabouts)
    ensures
        f@.project_path == f.project_path@,
        f@.file_name == crate::text::opt_view(f.file_name),
        f@.pid == f.pid,
        f@.is_project == f.is_project,
        f@.manifest == crate::text::opt_view(f.manifest),
        f@.lock == crate::text::opt_view(f.lock),
        f@.package == crate::text::opt_view(f.package),
        f@.package_dir == f.package_dir,
        f@.descriptor == opt_descriptor(f.descriptor),
        f@.answers == f.answers,
        f@.version_file == crate::text::opt_view(f.version_file),
        w@.is_absolute == w.is_absolute,
        w@.has_assets == w.has_assets@,
        w@.cwd == crate::text::opt_view(w.cwd),
        w@.cwd_is_absolute == w.cwd_is_absolute,
        w@.canonical == crate::text::opt_view(w.canonical),
{
}

/// The views of the lists of Editors leave none out.
pub proof fn lists_are_viewed_whole(
    facts: Seq<EditorFacts>,
    found: Seq<Whereabouts>,
    editors: Seq<(String, u32)>,
    i: int,
)
    ensures
        facts_views(facts).len() == facts.len(),
        0 <= i < facts.len() ==> facts_views(facts)[i] == facts[i]@,
        where_views(found).len() == found.len(),
        0 <= i < found.len() ==> where_views(found)[i] == found[i]@,
        editor_views(editors).len() == editors.len(),
        0 <= i < editors.len() ==> editor_views(editors)[i] == (editors[i].0@, editors[i].1),
{
}

} // verus!
