//! The contents of a Debian package: its control metadata, the manifest of
//! its payload, its maintainer scripts and its control files.
//!
//! Unpacking the archive, walking the payload tree and reading files are left
//! to the caller, who hands over what was found as plain values.

use crate::render::{decimal, decimal_string, joined, octal4, octal4_string};
use crate::text::{
    after, after_last, before, chars_of, ends_with, eq_ignore_ascii_case,
    equal_ignoring_ascii_case, equals, extend, find_char, has_char, has_prefix, has_suffix,
    is_blank, lines, lowercase, option_view, owned, slice, split_lines, starts_with, string_of,
    string_views, tail_after_last, to_lowercase, trim, trim_bounds, views,
};
use crate::utils::shell::{Invocation, InvocationView};
use vstd::prelude::*;

verus! {

// ---------------------------------------------------------------------------
// Control metadata
// ---------------------------------------------------------------------------

/// The fields of a package's control file.
#[derive(Debug, Clone)]
pub struct DebianPackageMetadata {
    pub package: String,
    pub version: String,
    pub architecture: String,
    pub maintainer: Option<String>,
    pub installed_size: Option<String>,
    pub section: Option<String>,
    pub priority: Option<String>,
    pub homepage: Option<String>,
    pub description: Option<String>,
    pub depends: Option<String>,
    pub pre_depends: Option<String>,
    pub recommends: Option<String>,
    pub suggests: Option<String>,
    pub conflicts: Option<String>,
    pub breaks: Option<String>,
    pub replaces: Option<String>,
}

/// The mathematical content of a [`DebianPackageMetadata`].
pub struct MetadataView {
    pub package: Seq<char>,
    pub version: Seq<char>,
    pub architecture: Seq<char>,
    pub maintainer: Option<Seq<char>>,
    pub installed_size: Option<Seq<char>>,
    pub section: Option<Seq<char>>,
    pub priority: Option<Seq<char>>,
    pub homepage: Option<Seq<char>>,
    pub description: Option<Seq<char>>,
    pub depends: Option<Seq<char>>,
    pub pre_depends: Option<Seq<char>>,
    pub recommends: Option<Seq<char>>,
    pub suggests: Option<Seq<char>>,
    pub conflicts: Option<Seq<char>>,
    pub breaks: Option<Seq<char>>,
    pub replaces: Option<Seq<char>>,
}

impl View for DebianPackageMetadata {
    type V = MetadataView;

    open spec fn view(&self) -> MetadataView {
        MetadataView {
            package: self.package@,
            version: self.version@,
            architecture: self.architecture@,
            maintainer: option_view(self.maintainer),
            installed_size: option_view(self.installed_size),
            section: option_view(self.section),
            priority: option_view(self.priority),
            homepage: option_view(self.homepage),
            description: option_view(self.description),
            depends: option_view(self.depends),
            pre_depends: option_view(self.pre_depends),
            recommends: option_view(self.recommends),
            suggests: option_view(self.suggests),
            conflicts: option_view(self.conflicts),
            breaks: option_view(self.breaks),
            replaces: option_view(self.replaces),
        }
    }
}

/// The metadata of a control file that names no field: the three required
/// fields are empty and every other field is absent.
pub open spec fn blank_metadata() -> MetadataView {
    MetadataView {
        package: Seq::empty(),
        version: Seq::empty(),
        architecture: Seq::empty(),
        maintainer: None,
        installed_size: None,
        section: None,
        priority: None,
        homepage: None,
        description: None,
        depends: None,
        pre_depends: None,
        recommends: None,
        suggests: None,
        conflicts: None,
        breaks: None,
        replaces: None,
    }
}

/// `m` with the field that `key` names set to `value`; `m` itself where `key`
/// names no field.
pub open spec fn with_field(m: MetadataView, key: Seq<char>, value: Seq<char>) -> MetadataView {
    if key == "Package"@ {
        MetadataView { package: value, ..m }
    } else if key == "Version"@ {
        MetadataView { version: value, ..m }
    } else if key == "Architecture"@ {
        MetadataView { architecture: value, ..m }
    } else if key == "Maintainer"@ {
        MetadataView { maintainer: Some(value), ..m }
    } else if key == "Installed-Size"@ {
        MetadataView { installed_size: Some(value), ..m }
    } else if key == "Section"@ {
        MetadataView { section: Some(value), ..m }
    } else if key == "Priority"@ {
        MetadataView { priority: Some(value), ..m }
    } else if key == "Homepage"@ {
        MetadataView { homepage: Some(value), ..m }
    } else if key == "Description"@ {
        MetadataView { description: Some(value), ..m }
    } else if key == "Depends"@ {
        MetadataView { depends: Some(value), ..m }
    } else if key == "Pre-Depends"@ {
        MetadataView { pre_depends: Some(value), ..m }
    } else if key == "Recommends"@ {
        MetadataView { recommends: Some(value), ..m }
    } else if key == "Suggests"@ {
        MetadataView { suggests: Some(value), ..m }
    } else if key == "Conflicts"@ {
        MetadataView { conflicts: Some(value), ..m }
    } else if key == "Breaks"@ {
        MetadataView { breaks: Some(value), ..m }
    } else if key == "Replaces"@ {
        MetadataView { replaces: Some(value), ..m }
    } else {
        m
    }
}

/// Where the reading of a control file stands: the metadata so far, and the
/// key of the field that continuation lines belong to (empty after a blank
/// line).
pub struct ControlScan {
    pub metadata: MetadataView,
    pub current_key: Seq<char>,
}

/// Whether a line continues the field before it: it begins with a space or a
/// tab.
pub open spec fn is_continuation(line: Seq<char>) -> bool {
    line.len() > 0 && (line[0] == ' ' || line[0] == '\t')
}

/// Whether a line starts a field: it is not blank, not a continuation, and
/// holds a colon.
pub open spec fn is_field_line(line: Seq<char>) -> bool {
    !is_blank(line) && !is_continuation(line) && has_char(line, ':')
}

/// The key of a field line: what stands before its first colon, trimmed.
pub open spec fn field_key(line: Seq<char>) -> Seq<char> {
    trim(before(line, ':'))
}

/// The value of a field line: what stands after its first colon, trimmed.
pub open spec fn field_value(line: Seq<char>) -> Seq<char> {
    trim(after(line, ':'))
}

/// One step of the reading of a control file.
///
/// A blank line forgets the current field. A continuation line is appended,
/// trimmed and after a line feed, to the description if that is the current
/// field, and is passed over otherwise. A field line sets its field and makes
/// it the current one. Any other line is passed over.
pub open spec fn control_step(st: ControlScan, line: Seq<char>) -> ControlScan {
    if is_blank(line) {
        ControlScan { metadata: st.metadata, current_key: Seq::empty() }
    } else if is_continuation(line) {
        match st.metadata.description {
            Some(d) if st.current_key == "Description"@ => ControlScan {
                metadata: MetadataView {
                    description: Some(d.push('\n') + trim(line)),
                    ..st.metadata
                },
                current_key: st.current_key,
            },
            _ => st,
        }
    } else if has_char(line, ':') {
        ControlScan {
            metadata: with_field(st.metadata, field_key(line), field_value(line)),
            current_key: field_key(line),
        }
    } else {
        st
    }
}

/// The reading of some lines of a control file.
pub open spec fn control_scan(lines: Seq<Seq<char>>) -> ControlScan
    decreases lines.len(),
{
    if lines.len() == 0 {
        ControlScan { metadata: blank_metadata(), current_key: Seq::empty() }
    } else {
        control_step(control_scan(lines.drop_last()), lines.last())
    }
}

/// The metadata that a control file holds.
pub open spec fn metadata_of(content: Seq<char>) -> MetadataView {
    control_scan(lines(content)).metadata
}

/// Whether some line of `lines` is a field line with the key `key`.
pub open spec fn names_field(lines: Seq<Seq<char>>, key: Seq<char>) -> bool {
    exists|i: int| 0 <= i < lines.len() && is_field_line(#[trigger] lines[i]) && field_key(lines[i]) == key
}

/// A required field that no line names is empty: the reading of a control
/// file does not fail for want of it.
pub proof fn lemma_unnamed_required_fields_are_empty(lines: Seq<Seq<char>>)
    ensures
        !names_field(lines, "Package"@) ==> control_scan(lines).metadata.package.len() == 0,
        !names_field(lines, "Version"@) ==> control_scan(lines).metadata.version.len() == 0,
        !names_field(lines, "Architecture"@) ==> control_scan(lines).metadata.architecture.len()
            == 0,
    decreases lines.len(),
{
    if lines.len() > 0 {
        let front = lines.drop_last();
        let line = lines.last();
        lemma_unnamed_required_fields_are_empty(front);
        assert(line == lines[lines.len() - 1]);
        assert forall|key: Seq<char>| names_field(front, key) implies names_field(lines, key) by {
            let i = choose|i: int|
                0 <= i < front.len() && is_field_line(#[trigger] front[i]) && field_key(front[i])
                    == key;
            assert(lines[i] == front[i]);
        }
    }
}

/// An optional field that no line names is absent.
pub proof fn lemma_unnamed_optional_fields_are_absent(lines: Seq<Seq<char>>)
    ensures
        !names_field(lines, "Maintainer"@) ==> control_scan(lines).metadata.maintainer is None,
        !names_field(lines, "Installed-Size"@) ==> control_scan(lines).metadata.installed_size
            is None,
        !names_field(lines, "Section"@) ==> control_scan(lines).metadata.section is None,
        !names_field(lines, "Priority"@) ==> control_scan(lines).metadata.priority is None,
        !names_field(lines, "Homepage"@) ==> control_scan(lines).metadata.homepage is None,
        !names_field(lines, "Description"@) ==> control_scan(lines).metadata.description is None,
        !names_field(lines, "Depends"@) ==> control_scan(lines).metadata.depends is None,
        !names_field(lines, "Pre-Depends"@) ==> control_scan(lines).metadata.pre_depends is None,
        !names_field(lines, "Recommends"@) ==> control_scan(lines).metadata.recommends is None,
        !names_field(lines, "Suggests"@) ==> control_scan(lines).metadata.suggests is None,
        !names_field(lines, "Conflicts"@) ==> control_scan(lines).metadata.conflicts is None,
        !names_field(lines, "Breaks"@) ==> control_scan(lines).metadata.breaks is None,
        !names_field(lines, "Replaces"@) ==> control_scan(lines).metadata.replaces is None,
    decreases lines.len(),
{
    if lines.len() > 0 {
        let front = lines.drop_last();
        let line = lines.last();
        lemma_unnamed_optional_fields_are_absent(front);
        assert(line == lines[lines.len() - 1]);
        assert forall|key: Seq<char>| names_field(front, key) implies names_field(lines, key) by {
            let i = choose|i: int|
                0 <= i < front.len() && is_field_line(#[trigger] front[i]) && field_key(front[i])
                    == key;
            assert(lines[i] == front[i]);
        }
    }
}

/// Sets the field that `key` names to `value`.
fn set_field(md: &mut DebianPackageMetadata, key: &Vec<char>, value: String)
    ensures
        final(md)@ == with_field(old(md)@, key@, value@),
{
    if equals(key, "Package") {
        md.package = value;
    } else if equals(key, "Version") {
        md.version = value;
    } else if equals(key, "Architecture") {
        md.architecture = value;
    } else if equals(key, "Maintainer") {
        md.maintainer = Some(value);
    } else if equals(key, "Installed-Size") {
        md.installed_size = Some(value);
    } else if equals(key, "Section") {
        md.section = Some(value);
    } else if equals(key, "Priority") {
        md.priority = Some(value);
    } else if equals(key, "Homepage") {
        md.homepage = Some(value);
    } else if equals(key, "Description") {
        md.description = Some(value);
    } else if equals(key, "Depends") {
        md.depends = Some(value);
    } else if equals(key, "Pre-Depends") {
        md.pre_depends = Some(value);
    } else if equals(key, "Recommends") {
        md.recommends = Some(value);
    } else if equals(key, "Suggests") {
        md.suggests = Some(value);
    } else if equals(key, "Conflicts") {
        md.conflicts = Some(value);
    } else if equals(key, "Breaks") {
        md.breaks = Some(value);
    } else if equals(key, "Replaces") {
        md.replaces = Some(value);
    }
}

/// Appends a continuation line to the description, if there is one.
fn continue_description(md: &mut DebianPackageMetadata, addition: &Vec<char>)
    ensures
        final(md)@ == (match old(md)@.description {
            Some(d) => MetadataView { description: Some(d.push('\n') + addition@), ..old(md)@ },
            None => old(md)@,
        }),
{
    let extended = match &md.description {
        Some(d) => {
            let mut buf = chars_of(d.as_str());
            buf.push('\n');
            extend(&mut buf, addition);
            Some(string_of(&buf))
        },
        None => None,
    };
    if extended.is_some() {
        md.description = extended;
    }
}

/// The executable type that the functions of this module hang on.
pub struct DebExtractor;

impl DebExtractor {
    /// Reads the metadata out of the text of a control file.
    ///
    /// Every text is accepted: a field that the text does not name keeps its
    /// default.
    pub fn parse_metadata(content: &str) -> (metadata: DebianPackageMetadata)
        ensures
            metadata@ == metadata_of(content@),
    {
        let text = chars_of(content);
        let all = split_lines(&text);
        let mut md = DebianPackageMetadata {
            package: String::new(),
            version: String::new(),
            architecture: String::new(),
            maintainer: None,
            installed_size: None,
            section: None,
            priority: None,
            homepage: None,
            description: None,
            depends: None,
            pre_depends: None,
            recommends: None,
            suggests: None,
            conflicts: None,
            breaks: None,
            replaces: None,
        };
        let mut current_key: Vec<char> = Vec::new();
        let mut i: usize = 0;
        assert(views(all@).take(0).len() == 0);
        assert(md@ == blank_metadata());
        while i < all.len()
            invariant
                i <= all.len(),
                control_scan(views(all@).take(i as int)) == (ControlScan {
                    metadata: md@,
                    current_key: current_key@,
                }),
            decreases all.len() - i,
        {
            let line = &all[i];
            let n: usize = line.len();
            proof {
                let upto = views(all@).take(i + 1);
                assert(upto.drop_last() == views(all@).take(i as int));
                assert(upto.last() == line@);
                assert(line@.subrange(0, n as int) == line@);
            }
            let (a, b) = trim_bounds(line, 0, n);
            if a == b {
                current_key = Vec::new();
            } else if line[0] == ' ' || line[0] == '\t' {
                if equals(&current_key, "Description") {
                    let addition = slice(line, a, b);
                    continue_description(&mut md, &addition);
                }
            } else {
                let p: usize = find_char(line, 0, n, ':');
                if p < n {
                    let (ka, kb) = trim_bounds(line, 0, p);
                    let (va, vb) = trim_bounds(line, p + 1, n);
                    let key = slice(line, ka, kb);
                    let value = slice(line, va, vb);
                    proof {
                        assert(before(line@, ':') == line@.subrange(0, p as int));
                        assert(after(line@, ':') == line@.subrange(p + 1, n as int));
                    }
                    set_field(&mut md, &key, string_of(&value));
                    current_key = key;
                }
            }
            i = i + 1;
        }
        assert(views(all@).take(all.len() as int) == views(all@));
        md
    }
}

// ---------------------------------------------------------------------------
// Which files are likely ELF binaries
// ---------------------------------------------------------------------------

/// The directories in which binaries conventionally live.
pub open spec fn bin_locations() -> Seq<Seq<char>> {
    seq![
        "bin/"@,
        "sbin/"@,
        "usr/bin/"@,
        "usr/sbin/"@,
        "usr/local/bin/"@,
        "usr/local/sbin/"@,
        "lib/"@,
        "lib64/"@,
        "usr/lib/"@,
        "usr/lib64/"@,
        "usr/libexec/"@,
        "opt/"@,
    ]
}

/// The endings of object files and libraries.
pub open spec fn object_suffixes() -> Seq<Seq<char>> {
    seq![".so"@, ".a"@, ".la"@, ".o"@]
}

/// The endings of files that are known not to be binaries.
pub open spec fn plain_suffixes() -> Seq<Seq<char>> {
    seq![
        ".png"@,
        ".jpg"@,
        ".jpeg"@,
        ".gif"@,
        ".svg"@,
        ".txt"@,
        ".xml"@,
        ".html"@,
        ".css"@,
        ".js"@,
        ".py"@,
        ".sh"@,
        ".desktop"@,
        ".json"@,
        ".conf"@,
        ".service"@,
    ]
}

/// The file names that are taken for executables wherever they lie.
pub open spec fn executable_names() -> Seq<Seq<char>> {
    seq!["cc-switch"@, "app"@, "runner"@, "daemon"@, "server"@]
}

/// Whether `path` lies under `location`, written with or without a slash in
/// front.
pub open spec fn lies_under(path: Seq<char>, location: Seq<char>) -> bool {
    starts_with(path, location) || starts_with(path, seq!['/'] + location)
}

/// Whether `path` lies under one of the conventional binary directories.
pub open spec fn in_bin_location(path: Seq<char>) -> bool {
    exists|i: int| 0 <= i < bin_locations().len() && lies_under(path, #[trigger] bin_locations()[i])
}

/// Whether `s` ends with one of `suffixes`.
pub open spec fn has_any_suffix(s: Seq<char>, suffixes: Seq<Seq<char>>) -> bool {
    exists|i: int| 0 <= i < suffixes.len() && ends_with(s, #[trigger] suffixes[i])
}

/// Whether `name` is, up to the case of ASCII letters, one of `names`.
pub open spec fn is_any_name(name: Seq<char>, names: Seq<Seq<char>>) -> bool {
    exists|i: int| 0 <= i < names.len() && eq_ignore_ascii_case(name, #[trigger] names[i])
}

/// The rule that takes a path for an ELF binary, given the path and its
/// lowercase form.
///
/// Under a binary directory, the ending of an object file decides for, else
/// the ending of a plain file decides against, else the file is taken for a
/// binary. Elsewhere the file is one only if its name is that of a generic
/// executable.
pub open spec fn likely_elf(path: Seq<char>, lower: Seq<char>) -> bool {
    if in_bin_location(path) {
        if has_any_suffix(lower, object_suffixes()) {
            true
        } else if has_any_suffix(lower, plain_suffixes()) {
            false
        } else {
            true
        }
    } else {
        is_any_name(after_last(path, '/'), executable_names())
    }
}

/// Whether a path is taken for an ELF binary.
pub open spec fn is_likely_elf(path: Seq<char>) -> bool {
    likely_elf(path, lowercase(path))
}

fn bin_location_list() -> (list: Vec<Vec<char>>)
    ensures
        views(list@) == bin_locations(),
{
    let mut list: Vec<Vec<char>> = Vec::new();
    list.push(chars_of("bin/"));
    list.push(chars_of("sbin/"));
    list.push(chars_of("usr/bin/"));
    list.push(chars_of("usr/sbin/"));
    list.push(chars_of("usr/local/bin/"));
    list.push(chars_of("usr/local/sbin/"));
    list.push(chars_of("lib/"));
    list.push(chars_of("lib64/"));
    list.push(chars_of("usr/lib/"));
    list.push(chars_of("usr/lib64/"));
    list.push(chars_of("usr/libexec/"));
    list.push(chars_of("opt/"));
    assert(views(list@) =~= bin_locations());
    list
}

fn object_suffix_list() -> (list: Vec<Vec<char>>)
    ensures
        views(list@) == object_suffixes(),
{
    let mut list: Vec<Vec<char>> = Vec::new();
    list.push(chars_of(".so"));
    list.push(chars_of(".a"));
    list.push(chars_of(".la"));
    list.push(chars_of(".o"));
    assert(views(list@) =~= object_suffixes());
    list
}

fn plain_suffix_list() -> (list: Vec<Vec<char>>)
    ensures
        views(list@) == plain_suffixes(),
{
    let mut list: Vec<Vec<char>> = Vec::new();
    list.push(chars_of(".png"));
    list.push(chars_of(".jpg"));
    list.push(chars_of(".jpeg"));
    list.push(chars_of(".gif"));
    list.push(chars_of(".svg"));
    list.push(chars_of(".txt"));
    list.push(chars_of(".xml"));
    list.push(chars_of(".html"));
    list.push(chars_of(".css"));
    list.push(chars_of(".js"));
    list.push(chars_of(".py"));
    list.push(chars_of(".sh"));
    list.push(chars_of(".desktop"));
    list.push(chars_of(".json"));
    list.push(chars_of(".conf"));
    list.push(chars_of(".service"));
    assert(views(list@) =~= plain_suffixes());
    list
}

fn executable_name_list() -> (list: Vec<Vec<char>>)
    ensures
        views(list@) == executable_names(),
{
    let mut list: Vec<Vec<char>> = Vec::new();
    list.push(chars_of("cc-switch"));
    list.push(chars_of("app"));
    list.push(chars_of("runner"));
    list.push(chars_of("daemon"));
    list.push(chars_of("server"));
    assert(views(list@) =~= executable_names());
    list
}

/// Whether `path` lies under `location`, with or without a slash in front.
fn is_under(path: &Vec<char>, location: &Vec<char>) -> (b: bool)
    ensures
        b == lies_under(path@, location@),
{
    if has_prefix(path, location) {
        return true;
    }
    let mut rooted: Vec<char> = Vec::new();
    rooted.push('/');
    extend(&mut rooted, location);
    assert(rooted@ == seq!['/'] + location@);
    has_prefix(path, &rooted)
}

/// Whether `path` lies under one of `locations`.
fn is_under_any(path: &Vec<char>, locations: &Vec<Vec<char>>) -> (b: bool)
    ensures
        b == (exists|i: int|
            0 <= i < locations.len() && lies_under(path@, #[trigger] views(locations@)[i])),
{
    let mut i: usize = 0;
    while i < locations.len()
        invariant
            i <= locations.len(),
            forall|j: int| 0 <= j < i ==> !lies_under(path@, #[trigger] views(locations@)[j]),
        decreases locations.len() - i,
    {
        if is_under(path, &locations[i]) {
            assert(views(locations@)[i as int] == locations@[i as int]@);
            return true;
        }
        assert(views(locations@)[i as int] == locations@[i as int]@);
        i = i + 1;
    }
    false
}

/// Whether `s` ends with one of `suffixes`.
fn ends_with_any(s: &Vec<char>, suffixes: &Vec<Vec<char>>) -> (b: bool)
    ensures
        b == has_any_suffix(s@, views(suffixes@)),
{
    let mut i: usize = 0;
    while i < suffixes.len()
        invariant
            i <= suffixes.len(),
            forall|j: int| 0 <= j < i ==> !ends_with(s@, #[trigger] views(suffixes@)[j]),
        decreases suffixes.len() - i,
    {
        assert(views(suffixes@)[i as int] == suffixes@[i as int]@);
        if has_suffix(s, &suffixes[i]) {
            return true;
        }
        i = i + 1;
    }
    false
}

/// Whether `name` is, up to the case of ASCII letters, one of `names`.
fn names_any(name: &Vec<char>, names: &Vec<Vec<char>>) -> (b: bool)
    ensures
        b == is_any_name(name@, views(names@)),
{
    let mut i: usize = 0;
    while i < names.len()
        invariant
            i <= names.len(),
            forall|j: int| 0 <= j < i ==> !eq_ignore_ascii_case(name@, #[trigger] views(names@)[j]),
        decreases names.len() - i,
    {
        assert(views(names@)[i as int] == names@[i as int]@);
        if equal_ignoring_ascii_case(name, &names[i]) {
            return true;
        }
        i = i + 1;
    }
    false
}

impl DebExtractor {
    /// Applies the rule for ELF binaries to a path whose lowercase form is
    /// given.
    pub fn classify_path(path: &str, lower: &str) -> (b: bool)
        ensures
            b == likely_elf(path@, lower@),
    {
        let p = chars_of(path);
        let l = chars_of(lower);
        let locations = bin_location_list();
        if is_under_any(&p, &locations) {
            let objects = object_suffix_list();
            if ends_with_any(&l, &objects) {
                return true;
            }
            let plain = plain_suffix_list();
            !ends_with_any(&l, &plain)
        } else {
            let name = tail_after_last(&p, '/');
            let names = executable_name_list();
            names_any(&name, &names)
        }
    }

    /// Whether a file is likely an ELF binary, judged by its path alone.
    pub fn is_likely_elf_file(path: &str) -> (b: bool)
        ensures
            b == is_likely_elf(path@),
    {
        let lower = to_lowercase(path);
        Self::classify_path(path, lower.as_str())
    }

    /// Whether a file is an ELF binary, judged by its first bytes: they are
    /// `0x7F`, `E`, `L`, `F`.
    pub fn is_elf_file(leading: &[u8]) -> (b: bool)
        ensures
            b == (leading@.len() >= 4 && leading@[0] == 0x7F && leading@[1] == 0x45 && leading@[2]
                == 0x4C && leading@[3] == 0x46),
    {
        leading.len() >= 4 && leading[0] == 0x7F && leading[1] == 0x45 && leading[2] == 0x4C
            && leading[3] == 0x46
    }
}

// ---------------------------------------------------------------------------
// The manifest of the payload
// ---------------------------------------------------------------------------

/// What kind of entry the walk of the payload tree met.
#[derive(Clone, Copy, Debug, PartialEq, Eq, Structural)]
pub enum EntryKind {
    Directory,
    File,
    Symlink,
    Other,
}

/// What the file system says of an entry.
#[derive(Clone, Copy, Debug)]
pub struct EntryMetadata {
    /// The size in bytes.
    pub size: u64,
    /// The mode bits.
    pub mode: u32,
    /// The time of the last change, in milliseconds since the epoch, where it
    /// could be read.
    pub modified_ms: Option<u128>,
}

/// One entry that the walk of the payload tree met, symbolic links not
/// followed.
#[derive(Debug, Clone)]
pub struct WalkEntry {
    /// The path below the root of the walk; empty for the root itself.
    pub path: String,
    pub kind: EntryKind,
    /// Absent where the metadata could not be read.
    pub metadata: Option<EntryMetadata>,
}

/// The mathematical content of a [`WalkEntry`].
pub struct WalkEntryView {
    pub path: Seq<char>,
    pub kind: EntryKind,
    pub metadata: Option<EntryMetadata>,
}

impl View for WalkEntry {
    type V = WalkEntryView;

    open spec fn view(&self) -> WalkEntryView {
        WalkEntryView { path: self.path@, kind: self.kind, metadata: self.metadata }
    }
}

/// The views of a list of walk entries.
pub open spec fn entry_views(entries: Seq<WalkEntry>) -> Seq<WalkEntryView> {
    entries.map_values(|e: WalkEntry| e@)
}

/// The class of a manifest entry.
#[derive(Clone, Copy, Debug, PartialEq, Eq, Structural)]
pub enum FileType {
    File,
    Directory,
    Symlink,
    Elf,
    Desktop,
}

/// One entry of the manifest.
#[derive(Debug, Clone)]
pub struct FileInfo {
    pub path: String,
    pub size: u64,
    pub mode: String,
    pub uid: u32,
    pub gid: u32,
    pub mtime: String,
    pub file_type: FileType,
    pub is_elf: bool,
    pub is_desktop: bool,
}

/// The mathematical content of a [`FileInfo`].
pub struct FileInfoView {
    pub path: Seq<char>,
    pub size: u64,
    pub mode: Seq<char>,
    pub uid: u32,
    pub gid: u32,
    pub mtime: Seq<char>,
    pub file_type: FileType,
    pub is_elf: bool,
    pub is_desktop: bool,
}

impl View for FileInfo {
    type V = FileInfoView;

    open spec fn view(&self) -> FileInfoView {
        FileInfoView {
            path: self.path@,
            size: self.size,
            mode: self.mode@,
            uid: self.uid,
            gid: self.gid,
            mtime: self.mtime@,
            file_type: self.file_type,
            is_elf: self.is_elf,
            is_desktop: self.is_desktop,
        }
    }
}

/// The views of a list of manifest entries.
pub open spec fn file_views(files: Seq<FileInfo>) -> Seq<FileInfoView> {
    files.map_values(|f: FileInfo| f@)
}

impl FileInfoView {
    /// What holds of every entry of a manifest: the path is not empty, the
    /// class agrees with the two flags, a directory carries neither flag, no
    /// entry is a symbolic link, the mode is four digits, and the owner is
    /// the placeholder 0.
    pub open spec fn wf(self) -> bool {
        &&& self.path.len() > 0
        &&& self.file_type != FileType::Symlink
        &&& self.is_elf <==> self.file_type == FileType::Elf
        &&& (self.is_desktop && !self.is_elf) <==> self.file_type == FileType::Desktop
        &&& self.file_type == FileType::Directory ==> !self.is_elf && !self.is_desktop
        &&& self.mode.len() == 4
        &&& self.uid == 0
        &&& self.gid == 0
    }
}

/// Whether a walk entry goes into the manifest: it is not the root, not a
/// symbolic link, and its metadata could be read.
pub open spec fn is_listed(e: WalkEntryView) -> bool {
    e.path.len() > 0 && e.kind != EntryKind::Symlink && e.metadata is Some
}

/// Whether a path names a desktop file.
pub open spec fn is_desktop_path(path: Seq<char>) -> bool {
    ends_with(path, ".desktop"@)
}

/// The time of the last change as it is written in the manifest: the
/// milliseconds in decimal, or nothing where the time is not known.
pub open spec fn mtime_text(modified_ms: Option<u128>) -> Seq<char> {
    match modified_ms {
        Some(ms) => decimal(ms as nat),
        None => Seq::empty(),
    }
}

/// The manifest entry of a walk entry that is listed.
pub open spec fn file_info_of(e: WalkEntryView) -> FileInfoView
    recommends
        is_listed(e),
{
    let is_file = e.kind == EntryKind::File;
    let is_elf = is_file && is_likely_elf(e.path);
    let is_desktop = is_file && is_desktop_path(e.path);
    FileInfoView {
        path: e.path,
        size: e.metadata->0.size,
        mode: octal4(e.metadata->0.mode as nat),
        uid: 0,
        gid: 0,
        mtime: mtime_text(e.metadata->0.modified_ms),
        file_type: if e.kind == EntryKind::Directory {
            FileType::Directory
        } else if is_elf {
            FileType::Elf
        } else if is_desktop {
            FileType::Desktop
        } else {
            FileType::File
        },
        is_elf,
        is_desktop,
    }
}

/// The manifest of a walk: the entries of the listed walk entries, in the
/// order of the walk.
pub open spec fn manifest_of(entries: Seq<WalkEntryView>) -> Seq<FileInfoView>
    decreases entries.len(),
{
    if entries.len() == 0 {
        Seq::empty()
    } else if is_listed(entries.last()) {
        manifest_of(entries.drop_last()).push(file_info_of(entries.last()))
    } else {
        manifest_of(entries.drop_last())
    }
}

/// How many walk entries are listed.
pub open spec fn listed_count(entries: Seq<WalkEntryView>) -> nat
    decreases entries.len(),
{
    if entries.len() == 0 {
        0
    } else if is_listed(entries.last()) {
        listed_count(entries.drop_last()) + 1
    } else {
        listed_count(entries.drop_last())
    }
}

/// The manifest has one entry for each listed walk entry, and each of its
/// entries is well formed.
pub proof fn lemma_manifest(entries: Seq<WalkEntryView>)
    ensures
        manifest_of(entries).len() == listed_count(entries),
        manifest_of(entries).len() <= entries.len(),
        forall|i: int| 0 <= i < manifest_of(entries).len() ==> (#[trigger] manifest_of(entries)[i]).wf(),
    decreases entries.len(),
{
    if entries.len() > 0 {
        lemma_manifest(entries.drop_last());
    }
}

/// The sizes of the regular files among the walk entries, added up.
pub open spec fn regular_size(entries: Seq<WalkEntryView>) -> nat
    decreases entries.len(),
{
    if entries.len() == 0 {
        0
    } else {
        let e = entries.last();
        regular_size(entries.drop_last()) + if e.kind == EntryKind::File && e.metadata is Some {
            e.metadata->0.size as nat
        } else {
            0
        }
    }
}

impl DebExtractor {
    /// The manifest entry of one walk entry; none for an entry that is not
    /// listed.
    pub fn file_info(entry: &WalkEntry) -> (info: Option<FileInfo>)
        ensures
            match info {
                Some(i) => is_listed(entry@) && i@ == file_info_of(entry@) && i@.wf(),
                None => !is_listed(entry@),
            },
    {
        let metadata = match entry.metadata {
            Some(m) => m,
            None => {
                return None;
            },
        };
        if entry.path.as_str().unicode_len() == 0 || entry.kind == EntryKind::Symlink {
            return None;
        }
        let is_file: bool = entry.kind == EntryKind::File;
        let is_elf: bool = is_file && Self::is_likely_elf_file(entry.path.as_str());
        let is_desktop: bool = is_file && {
            let p = chars_of(entry.path.as_str());
            let suffix = chars_of(".desktop");
            has_suffix(&p, &suffix)
        };
        let file_type = if entry.kind == EntryKind::Directory {
            FileType::Directory
        } else if is_elf {
            FileType::Elf
        } else if is_desktop {
            FileType::Desktop
        } else {
            FileType::File
        };
        let mtime = match metadata.modified_ms {
            Some(ms) => decimal_string(ms),
            None => String::new(),
        };
        Some(
            FileInfo {
                path: entry.path.clone(),
                size: metadata.size,
                mode: octal4_string(metadata.mode),
                uid: 0,
                gid: 0,
                mtime,
                file_type,
                is_elf,
                is_desktop,
            },
        )
    }

    /// Builds the manifest from what the walk of the payload tree met.
    pub fn list_files(entries: &Vec<WalkEntry>) -> (files: Vec<FileInfo>)
        ensures
            file_views(files@) == manifest_of(entry_views(entries@)),
            files@.len() == listed_count(entry_views(entries@)),
            forall|i: int| 0 <= i < files@.len() ==> (#[trigger] files@[i])@.wf(),
    {
        let mut files: Vec<FileInfo> = Vec::new();
        let mut i: usize = 0;
        assert(entry_views(entries@).take(0).len() == 0);
        assert(file_views(files@) == Seq::<FileInfoView>::empty());
        while i < entries.len()
            invariant
                i <= entries.len(),
                file_views(files@) == manifest_of(entry_views(entries@).take(i as int)),
                forall|j: int| 0 <= j < files@.len() ==> (#[trigger] files@[j])@.wf(),
            decreases entries.len() - i,
        {
            let entry = &entries[i];
            proof {
                let upto = entry_views(entries@).take(i + 1);
                assert(upto.drop_last() == entry_views(entries@).take(i as int));
                assert(upto.last() == entry@);
            }
            match Self::file_info(entry) {
                Some(info) => {
                    let ghost sofar = file_views(files@);
                    files.push(info);
                    assert(file_views(files@) == sofar.push(info@));
                },
                None => {},
            }
            i = i + 1;
        }
        proof {
            assert(entry_views(entries@).take(entries.len() as int) == entry_views(entries@));
            lemma_manifest(entry_views(entries@));
            assert(file_views(files@).len() == files@.len());
        }
        files
    }

    /// The sizes of the regular files that a walk met, added up. The sum is
    /// taken modulo 2^64, and so is exact wherever it fits 64 bits.
    pub fn calculate_directory_size(entries: &Vec<WalkEntry>) -> (total: u64)
        ensures
            total == regular_size(entry_views(entries@)) % 0x1_0000_0000_0000_0000,
            regular_size(entry_views(entries@)) <= u64::MAX ==> total == regular_size(
                entry_views(entries@),
            ),
    {
        let mut sum: u128 = 0;
        let mut i: usize = 0;
        assert(entry_views(entries@).take(0).len() == 0);
        while i < entries.len()
            invariant
                i <= entries.len(),
                sum == regular_size(entry_views(entries@).take(i as int)),
                sum <= i * 0xFFFF_FFFF_FFFF_FFFF,
            decreases entries.len() - i,
        {
            let entry = &entries[i];
            proof {
                let upto = entry_views(entries@).take(i + 1);
                assert(upto.drop_last() == entry_views(entries@).take(i as int));
                assert(upto.last() == entry@);
            }
            if entry.kind == EntryKind::File {
                match entry.metadata {
                    Some(m) => {
                        sum = sum + m.size as u128;
                    },
                    None => {},
                }
            }
            i = i + 1;
        }
        assert(entry_views(entries@).take(entries.len() as int) == entry_views(entries@));
        (sum % 0x1_0000_0000_0000_0000u128) as u64
    }
}

// ---------------------------------------------------------------------------
// Maintainer scripts and control files
// ---------------------------------------------------------------------------

/// The maintainer scripts of a package, each absent where the package has
/// none of that name.
#[derive(Debug, Clone)]
pub struct Scripts {
    pub preinst: Option<String>,
    pub postinst: Option<String>,
    pub prerm: Option<String>,
    pub postrm: Option<String>,
    pub config: Option<String>,
    pub templates: Option<String>,
}

/// The mathematical content of a [`Scripts`].
pub struct ScriptsView {
    pub preinst: Option<Seq<char>>,
    pub postinst: Option<Seq<char>>,
    pub prerm: Option<Seq<char>>,
    pub postrm: Option<Seq<char>>,
    pub config: Option<Seq<char>>,
    pub templates: Option<Seq<char>>,
}

impl View for Scripts {
    type V = ScriptsView;

    open spec fn view(&self) -> ScriptsView {
        ScriptsView {
            preinst: option_view(self.preinst),
            postinst: option_view(self.postinst),
            prerm: option_view(self.prerm),
            postrm: option_view(self.postrm),
            config: option_view(self.config),
            templates: option_view(self.templates),
        }
    }
}

/// The names of the maintainer scripts, in the order in which they are
/// looked for.
pub open spec fn script_names() -> Seq<Seq<char>> {
    seq!["preinst"@, "postinst"@, "prerm"@, "postrm"@, "config"@, "templates"@]
}

/// No script.
pub open spec fn no_scripts() -> ScriptsView {
    ScriptsView {
        preinst: None,
        postinst: None,
        prerm: None,
        postrm: None,
        config: None,
        templates: None,
    }
}

/// `s` with the script that `name` names set to `body`; `s` itself where
/// `name` names no script.
pub open spec fn with_script(s: ScriptsView, name: Seq<char>, body: Seq<char>) -> ScriptsView {
    if name == "preinst"@ {
        ScriptsView { preinst: Some(body), ..s }
    } else if name == "postinst"@ {
        ScriptsView { postinst: Some(body), ..s }
    } else if name == "prerm"@ {
        ScriptsView { prerm: Some(body), ..s }
    } else if name == "postrm"@ {
        ScriptsView { postrm: Some(body), ..s }
    } else if name == "config"@ {
        ScriptsView { config: Some(body), ..s }
    } else if name == "templates"@ {
        ScriptsView { templates: Some(body), ..s }
    } else {
        s
    }
}

/// The scripts among the files that were read, each a pair of a file name and
/// its text. A later file of one name replaces an earlier one.
pub open spec fn scripts_of(found: Seq<(Seq<char>, Seq<char>)>) -> ScriptsView
    decreases found.len(),
{
    if found.len() == 0 {
        no_scripts()
    } else {
        with_script(scripts_of(found.drop_last()), found.last().0, found.last().1)
    }
}

/// The views of a list of pairs of strings.
pub open spec fn pair_views(pairs: Seq<(String, String)>) -> Seq<(Seq<char>, Seq<char>)> {
    pairs.map_values(|p: (String, String)| (p.0@, p.1@))
}

/// The control files of a package: the control file itself, and the lists of
/// checksums and of configuration files where the package has them.
#[derive(Debug, Clone)]
pub struct ControlFiles {
    pub control: String,
    pub md5sums: Option<String>,
    pub conffiles: Option<String>,
}

/// The mathematical content of a [`ControlFiles`].
pub struct ControlFilesView {
    pub control: Seq<char>,
    pub md5sums: Option<Seq<char>>,
    pub conffiles: Option<Seq<char>>,
}

impl View for ControlFiles {
    type V = ControlFilesView;

    open spec fn view(&self) -> ControlFilesView {
        ControlFilesView {
            control: self.control@,
            md5sums: option_view(self.md5sums),
            conffiles: option_view(self.conffiles),
        }
    }
}

/// The bundle of control files, given what reading each of them gave: it
/// stands or falls with the control file.
pub open spec fn control_files_of(
    control: Result<String, String>,
    md5sums: Option<String>,
    conffiles: Option<String>,
) -> Result<ControlFilesView, Seq<char>> {
    match control {
        Ok(c) => Ok(
            ControlFilesView {
                control: c@,
                md5sums: option_view(md5sums),
                conffiles: option_view(conffiles),
            },
        ),
        Err(e) => Err("Failed to read control file: "@ + e@),
    }
}

/// The view of the result of reading the control files.
pub open spec fn control_files_view(r: Result<ControlFiles, String>) -> Result<
    ControlFilesView,
    Seq<char>,
> {
    match r {
        Ok(c) => Ok(c@),
        Err(e) => Err(e@),
    }
}

/// The step of the unpacking that failed.
#[derive(Clone, Copy, Debug, PartialEq, Eq, Structural)]
pub enum ExtractStage {
    /// The payload is unpacked.
    Payload,
    /// The control information is unpacked.
    Control,
}

/// The message for a failed step of the unpacking.
pub open spec fn extraction_failure_of(stage: ExtractStage, cause: Seq<char>) -> Seq<char> {
    match stage {
        ExtractStage::Payload => "Failed to extract package data: "@ + cause,
        ExtractStage::Control => "Failed to extract control information: "@ + cause,
    }
}

/// The outcome of the unpacking, given the outcomes of its two steps: the
/// first step that failed, the payload before the control information, is
/// the failure of the whole.
pub open spec fn extraction_of(payload: Result<String, String>, control: Result<String, String>)
    -> Result<(), Seq<char>> {
    match payload {
        Err(e) => Err(extraction_failure_of(ExtractStage::Payload, e@)),
        Ok(_) => match control {
            Err(e) => Err(extraction_failure_of(ExtractStage::Control, e@)),
            Ok(_) => Ok(()),
        },
    }
}

/// The run of `dpkg` that unpacks one part of a package into a directory.
pub open spec fn dpkg_invocation_of(
    flag: Seq<char>,
    deb_path: Seq<char>,
    target: Seq<char>,
    timeout_ms: u64,
) -> InvocationView {
    InvocationView {
        program: "dpkg"@,
        args: seq![flag, deb_path, target],
        timeout_ms,
        env: Seq::empty(),
    }
}

fn dpkg_invocation(flag: &str, deb_path: &str, target: &str, timeout_ms: u64) -> (inv: Invocation)
    ensures
        inv@ == dpkg_invocation_of(flag@, deb_path@, target@, timeout_ms),
{
    let mut args: Vec<String> = Vec::new();
    args.push(owned(flag));
    args.push(owned(deb_path));
    args.push(owned(target));
    let inv = Invocation { program: owned("dpkg"), args, timeout_ms, env: Vec::new() };
    assert(inv@.args == seq![flag@, deb_path@, target@]);
    assert(inv@.env == Seq::<(Seq<char>, Seq<char>)>::empty());
    inv
}

impl DebExtractor {
    /// The run that unpacks the payload of a package into a directory: it may
    /// take a minute.
    pub fn payload_invocation(deb_path: &str, extract_path: &str) -> (inv: Invocation)
        ensures
            inv@ == dpkg_invocation_of("-x"@, deb_path@, extract_path@, 60000),
    {
        dpkg_invocation("-x", deb_path, extract_path, 60000)
    }

    /// The run that unpacks the control information of a package into a
    /// directory: it may take half a minute.
    pub fn control_invocation(deb_path: &str, control_path: &str) -> (inv: Invocation)
        ensures
            inv@ == dpkg_invocation_of("-e"@, deb_path@, control_path@, 30000),
    {
        dpkg_invocation("-e", deb_path, control_path, 30000)
    }

    /// The message for a failed step of the unpacking.
    pub fn extraction_failure(stage: ExtractStage, cause: &str) -> (message: String)
        ensures
            message@ == extraction_failure_of(stage, cause@),
    {
        match stage {
            ExtractStage::Payload => joined("Failed to extract package data: ", cause),
            ExtractStage::Control => joined("Failed to extract control information: ", cause),
        }
    }

    /// Judges the unpacking of a package by the outcomes of its two runs.
    pub fn extract(payload: &Result<String, String>, control: &Result<String, String>) -> (r:
        Result<(), String>)
        ensures
            match r {
                Ok(_) => extraction_of(*payload, *control) is Ok,
                Err(e) => extraction_of(*payload, *control) == Err::<(), Seq<char>>(e@),
            },
    {
        match payload {
            Err(e) => Err(Self::extraction_failure(ExtractStage::Payload, e.as_str())),
            Ok(_) => match control {
                Err(e) => Err(Self::extraction_failure(ExtractStage::Control, e.as_str())),
                Ok(_) => Ok(()),
            },
        }
    }

    /// Sorts the files that were read in the control directory into the
    /// maintainer scripts. Each file is a pair of its name and its text;
    /// files of other names are passed over.
    pub fn parse_scripts(found: &Vec<(String, String)>) -> (scripts: Scripts)
        ensures
            scripts@ == scripts_of(pair_views(found@)),
    {
        let mut scripts = Scripts {
            preinst: None,
            postinst: None,
            prerm: None,
            postrm: None,
            config: None,
            templates: None,
        };
        let mut i: usize = 0;
        assert(pair_views(found@).take(0).len() == 0);
        while i < found.len()
            invariant
                i <= found.len(),
                scripts@ == scripts_of(pair_views(found@).take(i as int)),
            decreases found.len() - i,
        {
            proof {
                let upto = pair_views(found@).take(i + 1);
                assert(upto.drop_last() == pair_views(found@).take(i as int));
                assert(upto.last() == (found@[i as int].0@, found@[i as int].1@));
            }
            let name = chars_of(found[i].0.as_str());
            let body = found[i].1.clone();
            if equals(&name, "preinst") {
                scripts.preinst = Some(body);
            } else if equals(&name, "postinst") {
                scripts.postinst = Some(body);
            } else if equals(&name, "prerm") {
                scripts.prerm = Some(body);
            } else if equals(&name, "postrm") {
                scripts.postrm = Some(body);
            } else if equals(&name, "config") {
                scripts.config = Some(body);
            } else if equals(&name, "templates") {
                scripts.templates = Some(body);
            }
            i = i + 1;
        }
        assert(pair_views(found@).take(found.len() as int) == pair_views(found@));
        scripts
    }

    /// The names of the maintainer scripts, in the order in which they are
    /// looked for.
    pub fn script_file_names() -> (names: Vec<String>)
        ensures
            string_views(names@) == script_names(),
    {
        let mut names: Vec<String> = Vec::new();
        names.push(owned("preinst"));
        names.push(owned("postinst"));
        names.push(owned("prerm"));
        names.push(owned("postrm"));
        names.push(owned("config"));
        names.push(owned("templates"));
        assert(string_views(names@) =~= script_names());
        names
    }

    /// Bundles the control files, given what reading each of them gave. The
    /// control file is required; the other two are taken where they are there.
    pub fn read_control_files(
        control: Result<String, String>,
        md5sums: Option<String>,
        conffiles: Option<String>,
    ) -> (r: Result<ControlFiles, String>)
        ensures
            control_files_view(r) == control_files_of(control, md5sums, conffiles),
    {
        match control {
            Ok(c) => Ok(ControlFiles { control: c, md5sums, conffiles }),
            Err(e) => Err(joined("Failed to read control file: ", e.as_str())),
        }
    }
}

} // verus!
