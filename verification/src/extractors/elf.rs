//! Reading what the ELF inspection tool prints.
//!
//! Four runs of `readelf` describe one binary: its header, its program
//! headers, its section headers and its dynamic section. This module says
//! which runs to ask for and turns their output into an [`ELFInfo`]. Only the
//! header is required; each of the other three is used where it is there.

use crate::render::joined;
use crate::text::{
    after, before, chars_of, contains, contains_seq, equals, find, find_char, first_match,
    has_char, is_blank, lines, ok_view, owned, slice, split_lines, string_of, string_views, trim,
    trim_bounds, views,
};
use crate::string_map::StringMap;
use crate::utils::shell::{Invocation, InvocationView};
use vstd::prelude::*;

verus! {

/// What is known of one ELF binary.
#[derive(Debug, Clone)]
pub struct ELFInfo {
    pub elf_type: String,
    pub machine: String,
    pub entry: String,
    pub program_headers: Vec<String>,
    pub section_headers: Vec<String>,
    pub dependencies: Option<Vec<String>>,
    pub interpreter: Option<String>,
}

/// The mathematical content of an [`ELFInfo`].
pub struct ELFInfoView {
    pub elf_type: Seq<char>,
    pub machine: Seq<char>,
    pub entry: Seq<char>,
    pub program_headers: Seq<Seq<char>>,
    pub section_headers: Seq<Seq<char>>,
    pub dependencies: Option<Seq<Seq<char>>>,
    pub interpreter: Option<Seq<char>>,
}

impl View for ELFInfo {
    type V = ELFInfoView;

    open spec fn view(&self) -> ELFInfoView {
        ELFInfoView {
            elf_type: self.elf_type@,
            machine: self.machine@,
            entry: self.entry@,
            program_headers: string_views(self.program_headers@),
            section_headers: string_views(self.section_headers@),
            dependencies: match self.dependencies {
                Some(d) => Some(string_views(d@)),
                None => None,
            },
            interpreter: match self.interpreter {
                Some(i) => Some(i@),
                None => None,
            },
        }
    }
}

// ---------------------------------------------------------------------------
// The header summary
// ---------------------------------------------------------------------------

/// The value of a header field: of the last line that holds `marker` and a
/// colon, what follows the first colon, trimmed; `default` where no line does.
pub open spec fn header_field_of(
    lines: Seq<Seq<char>>,
    marker: Seq<char>,
    default: Seq<char>,
) -> Seq<char>
    decreases lines.len(),
{
    if lines.len() == 0 {
        default
    } else {
        let line = lines.last();
        if contains_seq(line, marker) && has_char(line, ':') {
            trim(after(line, ':'))
        } else {
            header_field_of(lines.drop_last(), marker, default)
        }
    }
}

/// Looks a header field up in the lines of the header summary.
pub fn header_field(lines: &Vec<Vec<char>>, marker: &str, default: &str) -> (value: String)
    ensures
        value@ == header_field_of(views(lines@), marker@, default@),
{
    let needle = chars_of(marker);
    let mut cur = chars_of(default);
    let mut i: usize = 0;
    assert(views(lines@).take(0).len() == 0);
    while i < lines.len()
        invariant
            i <= lines.len(),
            needle@ == marker@,
            cur@ == header_field_of(views(lines@).take(i as int), marker@, default@),
        decreases lines.len() - i,
    {
        let line = &lines[i];
        let n: usize = line.len();
        proof {
            let upto = views(lines@).take(i + 1);
            assert(upto.drop_last() == views(lines@).take(i as int));
            assert(upto.last() == line@);
            assert(line@.subrange(0, n as int) == line@);
        }
        if contains(line, &needle) {
            let p: usize = find_char(line, 0, n, ':');
            if p < n {
                let (a, b) = trim_bounds(line, p + 1, n);
                cur = slice(line, a, b);
                assert(line@.skip(p + 1) == line@.subrange(p + 1, n as int));
            }
        }
        i = i + 1;
    }
    assert(views(lines@).take(lines.len() as int) == views(lines@));
    string_of(&cur)
}

// ---------------------------------------------------------------------------
// Blocks of indented lines
// ---------------------------------------------------------------------------

/// Where a scan for a block of indented lines stands: whether it is inside
/// the block, and the lines it has kept.
pub struct BlockScan {
    pub in_block: bool,
    pub captured: Seq<Seq<char>>,
}

/// Whether a line begins with a space.
pub open spec fn is_indented(line: Seq<char>) -> bool {
    line.len() > 0 && line[0] == ' '
}

/// One step of a block scan.
///
/// A marker line opens the block and is not kept. Inside the block a blank
/// line changes nothing, an indented line is kept as it stands if it is
/// `wanted`, and any other line closes the block.
pub open spec fn block_step(st: BlockScan, line: Seq<char>, marker: bool, wanted: bool)
    -> BlockScan {
    if marker {
        BlockScan { in_block: true, captured: st.captured }
    } else if !st.in_block || is_blank(line) {
        st
    } else if is_indented(line) {
        if wanted {
            BlockScan { in_block: true, captured: st.captured.push(line) }
        } else {
            st
        }
    } else {
        BlockScan { in_block: false, captured: st.captured }
    }
}

/// A scan that has seen nothing yet.
pub open spec fn block_start() -> BlockScan {
    BlockScan { in_block: false, captured: Seq::empty() }
}

/// Whether a line opens the block of program headers.
pub open spec fn is_segment_marker(line: Seq<char>) -> bool {
    contains_seq(line, "Program Headers:"@) || contains_seq(line, "Type"@)
}

/// Whether a line opens the block of section headers.
pub open spec fn is_section_marker(line: Seq<char>) -> bool {
    contains_seq(line, "Section Headers:"@) || contains_seq(line, "Nr]"@)
}

/// Whether the first character of a text is an ASCII digit.
pub open spec fn starts_with_digit(s: Seq<char>) -> bool {
    s.len() > 0 && '0' <= s[0] <= '9'
}

/// The scan for program headers over some lines.
pub open spec fn segment_scan(lines: Seq<Seq<char>>) -> BlockScan
    decreases lines.len(),
{
    if lines.len() == 0 {
        block_start()
    } else {
        block_step(
            segment_scan(lines.drop_last()),
            lines.last(),
            is_segment_marker(lines.last()),
            true,
        )
    }
}

/// The scan for section headers over some lines: of the indented lines only
/// those are kept whose first character after the indentation is a digit.
pub open spec fn section_scan(lines: Seq<Seq<char>>) -> BlockScan
    decreases lines.len(),
{
    if lines.len() == 0 {
        block_start()
    } else {
        block_step(
            section_scan(lines.drop_last()),
            lines.last(),
            is_section_marker(lines.last()),
            starts_with_digit(trim(lines.last())),
        )
    }
}

/// The program-header lines in the output of the segment listing.
pub open spec fn program_headers_of(output: Seq<char>) -> Seq<Seq<char>> {
    segment_scan(lines(output)).captured
}

/// The section-header lines in the output of the section listing.
pub open spec fn section_headers_of(output: Seq<char>) -> Seq<Seq<char>> {
    section_scan(lines(output)).captured
}

/// Takes one step of a block scan, given whether the line is a marker.
fn scan_step(
    in_block: &mut bool,
    captured: &mut Vec<String>,
    line: &Vec<char>,
    marker: bool,
    digits_only: bool,
)
    ensures
        (BlockScan { in_block: *final(in_block), captured: string_views(final(captured)@) })
            == block_step(
            BlockScan { in_block: *old(in_block), captured: string_views(old(captured)@) },
            line@,
            marker,
            !digits_only || starts_with_digit(trim(line@)),
        ),
{
    if marker {
        *in_block = true;
        return ;
    }
    if !*in_block {
        return ;
    }
    let n: usize = line.len();
    assert(line@.subrange(0, n as int) == line@);
    let (a, b) = trim_bounds(line, 0, n);
    if a == b {
        return ;
    }
    if line[0] == ' ' {
        let first: char = line[a];
        assert(trim(line@)[0] == first);
        if !digits_only || ('0' <= first && first <= '9') {
            let kept = string_of(line);
            let ghost before = string_views(captured@);
            captured.push(kept);
            assert(string_views(captured@) == before.push(line@));
        }
    } else {
        *in_block = false;
    }
}

/// The program-header lines in the output of the segment listing.
pub fn parse_program_headers(output: &str) -> (headers: Vec<String>)
    ensures
        string_views(headers@) == program_headers_of(output@),
{
    let text = chars_of(output);
    let all = split_lines(&text);
    let first = chars_of("Program Headers:");
    let second = chars_of("Type");
    let mut in_block: bool = false;
    let mut captured: Vec<String> = Vec::new();
    let mut i: usize = 0;
    assert(views(all@).take(0).len() == 0);
    assert(string_views(captured@) == Seq::<Seq<char>>::empty());
    while i < all.len()
        invariant
            i <= all.len(),
            first@ == "Program Headers:"@,
            second@ == "Type"@,
            (BlockScan { in_block, captured: string_views(captured@) }) == segment_scan(
                views(all@).take(i as int),
            ),
        decreases all.len() - i,
    {
        let line = &all[i];
        proof {
            let upto = views(all@).take(i + 1);
            assert(upto.drop_last() == views(all@).take(i as int));
            assert(upto.last() == line@);
        }
        let marker: bool = contains(line, &first) || contains(line, &second);
        scan_step(&mut in_block, &mut captured, line, marker, false);
        i = i + 1;
    }
    assert(views(all@).take(all.len() as int) == views(all@));
    captured
}

/// The section-header lines in the output of the section listing.
pub fn parse_section_headers(output: &str) -> (headers: Vec<String>)
    ensures
        string_views(headers@) == section_headers_of(output@),
{
    let text = chars_of(output);
    let all = split_lines(&text);
    let first = chars_of("Section Headers:");
    let second = chars_of("Nr]");
    let mut in_block: bool = false;
    let mut captured: Vec<String> = Vec::new();
    let mut i: usize = 0;
    assert(views(all@).take(0).len() == 0);
    assert(string_views(captured@) == Seq::<Seq<char>>::empty());
    while i < all.len()
        invariant
            i <= all.len(),
            first@ == "Section Headers:"@,
            second@ == "Nr]"@,
            (BlockScan { in_block, captured: string_views(captured@) }) == section_scan(
                views(all@).take(i as int),
            ),
        decreases all.len() - i,
    {
        let line = &all[i];
        proof {
            let upto = views(all@).take(i + 1);
            assert(upto.drop_last() == views(all@).take(i as int));
            assert(upto.last() == line@);
        }
        let marker: bool = contains(line, &first) || contains(line, &second);
        scan_step(&mut in_block, &mut captured, line, marker, true);
        i = i + 1;
    }
    assert(views(all@).take(all.len() as int) == views(all@));
    captured
}

// ---------------------------------------------------------------------------
// Bracketed tokens: the interpreter and the needed libraries
// ---------------------------------------------------------------------------

/// The text between the first `[` of `s` and the first `]` after it.
pub open spec fn bracketed(s: Seq<char>) -> Option<Seq<char>> {
    if has_char(s, '[') {
        let rest = after(s, '[');
        if has_char(rest, ']') {
            Some(before(rest, ']'))
        } else {
            None
        }
    } else {
        None
    }
}

/// The interpreter that the segment listing names: the bracketed token that
/// follows the first `INTERP` anywhere in the output.
pub open spec fn interpreter_of(output: Seq<char>) -> Option<Seq<char>> {
    match first_match(output, "INTERP"@) {
        Some(i) => bracketed(output.skip(i)),
        None => None,
    }
}

/// The bracketed tokens of the lines that hold `NEEDED`, in order.
pub open spec fn needed_libraries(lines: Seq<Seq<char>>) -> Seq<Seq<char>>
    decreases lines.len(),
{
    if lines.len() == 0 {
        Seq::empty()
    } else {
        let sofar = needed_libraries(lines.drop_last());
        let line = lines.last();
        if contains_seq(line, "NEEDED"@) && bracketed(line) is Some {
            sofar.push(bracketed(line)->0)
        } else {
            sofar
        }
    }
}

/// The shared libraries that the dynamic section asks for; absent where it
/// asks for none.
pub open spec fn dependencies_of(output: Seq<char>) -> Option<Seq<Seq<char>>> {
    let libs = needed_libraries(lines(output));
    if libs.len() == 0 {
        None
    } else {
        Some(libs)
    }
}

/// The text between the first `[` at or after `from` and the first `]` after it.
pub fn bracketed_from(s: &Vec<char>, from: usize) -> (token: Option<Vec<char>>)
    requires
        from <= s.len(),
    ensures
        match token {
            Some(t) => bracketed(s@.skip(from as int)) == Some(t@),
            None => bracketed(s@.skip(from as int)) is None,
        },
{
    let n: usize = s.len();
    let ghost tail = s@.skip(from as int);
    assert(tail == s@.subrange(from as int, n as int));
    let p: usize = find_char(s, from, n, '[');
    if p == n - from {
        return None;
    }
    let open: usize = from + p + 1;
    let ghost rest = after(tail, '[');
    assert(rest == s@.subrange(open as int, n as int));
    let q: usize = find_char(s, open, n, ']');
    if q == n - open {
        return None;
    }
    let token = slice(s, open, open + q);
    assert(before(rest, ']') == s@.subrange(open as int, open + q));
    Some(token)
}

/// The interpreter that the segment listing names.
pub fn parse_interpreter(output: &str) -> (interpreter: Option<String>)
    ensures
        match interpreter {
            Some(i) => interpreter_of(output@) == Some(i@),
            None => interpreter_of(output@) is None,
        },
{
    let text = chars_of(output);
    let needle = chars_of("INTERP");
    match find(&text, &needle) {
        Some(i) => {
            proof {
                crate::text::lemma_first_match_from(text@, needle@, 0);
            }
            match bracketed_from(&text, i) {
                Some(t) => Some(string_of(&t)),
                None => None,
            }
        },
        None => None,
    }
}

/// The shared libraries that the dynamic section asks for.
pub fn parse_dependencies(output: &str) -> (dependencies: Option<Vec<String>>)
    ensures
        match dependencies {
            Some(d) => dependencies_of(output@) == Some(string_views(d@)),
            None => dependencies_of(output@) is None,
        },
{
    let text = chars_of(output);
    let all = split_lines(&text);
    let needle = chars_of("NEEDED");
    let mut libs: Vec<String> = Vec::new();
    let mut i: usize = 0;
    assert(views(all@).take(0).len() == 0);
    assert(string_views(libs@) == Seq::<Seq<char>>::empty());
    while i < all.len()
        invariant
            i <= all.len(),
            needle@ == "NEEDED"@,
            string_views(libs@) == needed_libraries(views(all@).take(i as int)),
        decreases all.len() - i,
    {
        let line = &all[i];
        proof {
            let upto = views(all@).take(i + 1);
            assert(upto.drop_last() == views(all@).take(i as int));
            assert(upto.last() == line@);
            assert(line@.skip(0) == line@);
        }
        if contains(line, &needle) {
            match bracketed_from(line, 0) {
                Some(t) => {
                    let ghost sofar = string_views(libs@);
                    libs.push(string_of(&t));
                    assert(string_views(libs@) == sofar.push(t@));
                },
                None => {},
            }
        }
        i = i + 1;
    }
    assert(views(all@).take(all.len() as int) == views(all@));
    if libs.len() == 0 {
        None
    } else {
        Some(libs)
    }
}

// ---------------------------------------------------------------------------
// The whole analysis
// ---------------------------------------------------------------------------

/// What the four listings say of a binary. `header` is the header summary;
/// each of the others is the output of its run, or absent where that run
/// failed.
pub open spec fn elf_info_of(
    header: Seq<char>,
    segments: Option<Seq<char>>,
    sections: Option<Seq<char>>,
    dynamic: Option<Seq<char>>,
) -> ELFInfoView {
    ELFInfoView {
        elf_type: header_field_of(lines(header), "Type:"@, "unknown"@),
        machine: header_field_of(lines(header), "Machine:"@, "unknown"@),
        entry: header_field_of(lines(header), "Entry point"@, "0x0"@),
        program_headers: match segments {
            Some(o) => program_headers_of(o),
            None => Seq::empty(),
        },
        section_headers: match sections {
            Some(o) => section_headers_of(o),
            None => Seq::empty(),
        },
        dependencies: match dynamic {
            Some(o) => dependencies_of(o),
            None => None,
        },
        interpreter: match segments {
            Some(o) => interpreter_of(o),
            None => None,
        },
    }
}

/// The outcome of an analysis: the failure of the header run is the failure
/// of the analysis, and nothing else is.
pub open spec fn analysis_of(
    header: Result<String, String>,
    segments: Result<String, String>,
    sections: Result<String, String>,
    dynamic: Result<String, String>,
) -> Result<ELFInfoView, Seq<char>> {
    match header {
        Ok(h) => Ok(elf_info_of(h@, ok_view(segments), ok_view(sections), ok_view(dynamic))),
        Err(e) => Err("Failed to read ELF header: "@ + e@),
    }
}

/// The view of the result of an analysis.
pub open spec fn analysis_view(r: Result<ELFInfo, String>) -> Result<ELFInfoView, Seq<char>> {
    match r {
        Ok(info) => Ok(info@),
        Err(e) => Err(e@),
    }
}

/// What the four runs of the inspection tool on one binary gave.
#[derive(Debug)]
pub struct ElfOutputs {
    /// The header summary.
    pub header: Result<String, String>,
    /// The segment listing.
    pub segments: Result<String, String>,
    /// The section listing.
    pub sections: Result<String, String>,
    /// The dynamic section.
    pub dynamic: Result<String, String>,
}

impl ElfOutputs {
    /// The outcome of the analysis of these outputs.
    pub open spec fn analysis(self) -> Result<ELFInfoView, Seq<char>> {
        analysis_of(self.header, self.segments, self.sections, self.dynamic)
    }

    /// Puts together what the four runs said of a binary.
    pub fn analyze(&self) -> (r: Result<ELFInfo, String>)
        ensures
            analysis_view(r) == self.analysis(),
    {
        let stdout = match &self.header {
            Ok(h) => h,
            Err(e) => {
                return Err(joined("Failed to read ELF header: ", e.as_str()));
            },
        };
        let text = chars_of(stdout.as_str());
        let all = split_lines(&text);
        let elf_type = header_field(&all, "Type:", "unknown");
        let machine = header_field(&all, "Machine:", "unknown");
        let entry = header_field(&all, "Entry point", "0x0");
        let (program_headers, interpreter) = match &self.segments {
            Ok(o) => (parse_program_headers(o.as_str()), parse_interpreter(o.as_str())),
            Err(_) => (Vec::new(), None),
        };
        let section_headers = match &self.sections {
            Ok(o) => parse_section_headers(o.as_str()),
            Err(_) => Vec::new(),
        };
        let dependencies = match &self.dynamic {
            Ok(o) => parse_dependencies(o.as_str()),
            Err(_) => None,
        };
        let info = ELFInfo {
            elf_type,
            machine,
            entry,
            program_headers,
            section_headers,
            dependencies,
            interpreter,
        };
        proof {
            let want = elf_info_of(
                stdout@,
                ok_view(self.segments),
                ok_view(self.sections),
                ok_view(self.dynamic),
            );
            assert(info@.program_headers == want.program_headers);
            assert(info@.section_headers == want.section_headers);
            assert(info@.dependencies == want.dependencies);
            assert(info@.interpreter == want.interpreter);
            assert(info@ == want);
        }
        Ok(info)
    }
}

/// Puts together what the four runs of the inspection tool said of a binary.
///
/// Each argument is the result of one run: the header summary, the segment
/// listing, the section listing and the dynamic section.
pub fn analyze_elf(
    header: Result<String, String>,
    segments: Result<String, String>,
    sections: Result<String, String>,
    dynamic: Result<String, String>,
) -> (r: Result<ELFInfo, String>)
    ensures
        analysis_view(r) == analysis_of(header, segments, sections, dynamic),
{
    let outputs = ElfOutputs { header, segments, sections, dynamic };
    outputs.analyze()
}

/// Where the header run succeeds, the type, machine and entry point are read
/// from it whatever became of the other runs, and a failed run leaves its own
/// part at its default: no program headers and no interpreter, no section
/// headers, no dependencies.
pub proof fn lemma_partial_failure_tolerated(
    header: Seq<char>,
    segments: Option<Seq<char>>,
    sections: Option<Seq<char>>,
    dynamic: Option<Seq<char>>,
)
    ensures
        elf_info_of(header, segments, sections, dynamic).elf_type == elf_info_of(
            header,
            None,
            None,
            None,
        ).elf_type,
        elf_info_of(header, segments, sections, dynamic).machine == elf_info_of(
            header,
            None,
            None,
            None,
        ).machine,
        elf_info_of(header, segments, sections, dynamic).entry == elf_info_of(
            header,
            None,
            None,
            None,
        ).entry,
        dynamic is None ==> elf_info_of(header, segments, sections, dynamic).dependencies is None,
        segments is None ==> elf_info_of(header, segments, sections, dynamic).program_headers.len()
            == 0 && elf_info_of(header, segments, sections, dynamic).interpreter is None,
        sections is None ==> elf_info_of(header, segments, sections, dynamic).section_headers.len()
            == 0,
{
}

// ---------------------------------------------------------------------------
// What to run
// ---------------------------------------------------------------------------

/// The run of `readelf` with one flag on one file: half a second at most,
/// with the locale fixed to `C` so that the labels do not change with the host.
pub open spec fn readelf_invocation_of(flag: Seq<char>, file_path: Seq<char>) -> InvocationView {
    InvocationView {
        program: "readelf"@,
        args: seq![flag, file_path],
        timeout_ms: 500,
        env: seq![("LC_ALL"@, "C"@)],
    }
}

/// The run of `readelf` with one flag on one file.
pub fn readelf_invocation(flag: &str, file_path: &str) -> (inv: Invocation)
    ensures
        inv@ == readelf_invocation_of(flag@, file_path@),
{
    let mut args: Vec<String> = Vec::new();
    args.push(owned(flag));
    args.push(owned(file_path));
    let mut env: Vec<(String, String)> = Vec::new();
    env.push((owned("LC_ALL"), owned("C")));
    let inv = Invocation { program: owned("readelf"), args, timeout_ms: 500, env };
    assert(inv@.args == seq![flag@, file_path@]);
    assert(inv@.env == seq![("LC_ALL"@, "C"@)]);
    inv
}

/// The four runs that describe one binary, in the order in which
/// [`analyze_elf`] takes their results: header (`-h`), segments (`-l`),
/// sections (`-S`), dynamic section (`-d`).
pub fn elf_invocations(file_path: &str) -> (runs: Vec<Invocation>)
    ensures
        runs@.len() == 4,
        runs@[0]@ == readelf_invocation_of("-h"@, file_path@),
        runs@[1]@ == readelf_invocation_of("-l"@, file_path@),
        runs@[2]@ == readelf_invocation_of("-S"@, file_path@),
        runs@[3]@ == readelf_invocation_of("-d"@, file_path@),
{
    let mut runs: Vec<Invocation> = Vec::new();
    runs.push(readelf_invocation("-h", file_path));
    runs.push(readelf_invocation("-l", file_path));
    runs.push(readelf_invocation("-S", file_path));
    runs.push(readelf_invocation("-d", file_path));
    runs
}

// ---------------------------------------------------------------------------
// Desktop entries
// ---------------------------------------------------------------------------

/// Where the reading of a desktop file stands.
pub enum DesktopPhase {
    /// The `[Desktop Entry]` header has not been seen yet.
    Seeking,
    /// The lines of the `[Desktop Entry]` section are being read.
    InEntry,
    /// Another section has begun; nothing more is read.
    Done,
}

/// The phase of the reading and the entries recorded so far.
pub struct DesktopScan {
    pub phase: DesktopPhase,
    pub entries: Map<Seq<char>, Seq<char>>,
}

/// Whether a trimmed line has the form of a section header: it begins with
/// `[` and ends with `]`.
pub open spec fn is_section_header(t: Seq<char>) -> bool {
    t.len() > 0 && t[0] == '[' && t.last() == ']'
}

/// One step of the reading of a desktop file.
///
/// Before the `[Desktop Entry]` header every line is passed over. After it,
/// a line of the form `key=value` is recorded under its trimmed key with its
/// trimmed value, a later one replacing an earlier one of the same key, and
/// the header of any other section ends the reading.
pub open spec fn desktop_step(st: DesktopScan, line: Seq<char>) -> DesktopScan {
    let t = trim(line);
    match st.phase {
        DesktopPhase::Done => st,
        DesktopPhase::Seeking => if t == "[Desktop Entry]"@ {
            DesktopScan { phase: DesktopPhase::InEntry, entries: st.entries }
        } else {
            st
        },
        DesktopPhase::InEntry => if t == "[Desktop Entry]"@ {
            st
        } else if is_section_header(t) {
            DesktopScan { phase: DesktopPhase::Done, entries: st.entries }
        } else if has_char(t, '=') {
            DesktopScan {
                phase: DesktopPhase::InEntry,
                entries: st.entries.insert(trim(before(t, '=')), trim(after(t, '='))),
            }
        } else {
            st
        },
    }
}

/// The reading of some lines of a desktop file.
pub open spec fn desktop_scan(lines: Seq<Seq<char>>) -> DesktopScan
    decreases lines.len(),
{
    if lines.len() == 0 {
        DesktopScan { phase: DesktopPhase::Seeking, entries: Map::empty() }
    } else {
        desktop_step(desktop_scan(lines.drop_last()), lines.last())
    }
}

/// The entries of the `[Desktop Entry]` section of a desktop file.
pub open spec fn desktop_entries_of(content: Seq<char>) -> Map<Seq<char>, Seq<char>> {
    desktop_scan(lines(content)).entries
}

/// The reading is scoped to the one section: before its header nothing is
/// recorded, and once another section has begun no later line changes what
/// was read.
pub proof fn lemma_desktop_scope(lines: Seq<Seq<char>>, more: Seq<Seq<char>>)
    ensures
        desktop_scan(lines).phase is Seeking ==> desktop_scan(lines).entries == Map::<
            Seq<char>,
            Seq<char>,
        >::empty(),
        desktop_scan(lines).phase is Done ==> desktop_scan(lines + more) == desktop_scan(lines),
    decreases lines.len() + more.len(),
{
    if lines.len() > 0 {
        lemma_desktop_scope(lines.drop_last(), Seq::empty());
    }
    if more.len() == 0 {
        assert(lines + more == lines);
    } else {
        lemma_desktop_scope(lines, more.drop_last());
        assert((lines + more).drop_last() == lines + more.drop_last());
        assert((lines + more).last() == more.last());
    }
}

/// Reads the `[Desktop Entry]` section of a desktop file.
pub fn analyze_desktop(content: &str) -> (entries: StringMap<String>)
    ensures
        entries@ == desktop_entries_of(content@),
{
    let text = chars_of(content);
    let all = split_lines(&text);
    let mut entries: StringMap<String> = StringMap::new();
    let mut seeking: bool = true;
    let mut done: bool = false;
    let mut i: usize = 0;
    assert(views(all@).take(0).len() == 0);
    while i < all.len()
        invariant
            i <= all.len(),
            !(seeking && done),
            desktop_scan(views(all@).take(i as int)) == (DesktopScan {
                phase: if done {
                    DesktopPhase::Done
                } else if seeking {
                    DesktopPhase::Seeking
                } else {
                    DesktopPhase::InEntry
                },
                entries: entries@,
            }),
        decreases all.len() - i,
    {
        let line = &all[i];
        proof {
            let upto = views(all@).take(i + 1);
            assert(upto.drop_last() == views(all@).take(i as int));
            assert(upto.last() == line@);
            assert(line@.subrange(0, line@.len() as int) == line@);
        }
        if !done {
            let (a, b) = trim_bounds(line, 0, line.len());
            let t = slice(line, a, b);
            assert(t@.subrange(0, t@.len() as int) == t@);
            if equals(&t, "[Desktop Entry]") {
                seeking = false;
            } else if !seeking {
                if t.len() > 0 && t[0] == '[' && t[t.len() - 1] == ']' {
                    done = true;
                } else {
                    let p: usize = find_char(&t, 0, t.len(), '=');
                    if p < t.len() {
                        let (ka, kb) = trim_bounds(&t, 0, p);
                        let (va, vb) = trim_bounds(&t, p + 1, t.len());
                        let key = slice(&t, ka, kb);
                        let value = slice(&t, va, vb);
                        proof {
                            assert(before(t@, '=') == t@.subrange(0, p as int));
                            assert(after(t@, '=') == t@.subrange(p + 1, t@.len() as int));
                        }
                        entries.insert(string_of(&key), string_of(&value));
                    }
                }
            }
        }
        i = i + 1;
    }
    assert(views(all@).take(all.len() as int) == views(all@));
    entries
}

} // verus!
