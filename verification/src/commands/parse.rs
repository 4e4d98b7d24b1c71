//! The report on a package: the checks on the input, the choice of the files
//! that are analysed, the statistics, and the assembly of the whole.
//!
//! The caller drives the analysis: it reads, unpacks and runs the tools, and
//! asks this module what to do with what it got.

use crate::extractors::deb::{
    entry_views, file_views, is_listed, listed_count, manifest_of, metadata_of, pair_views,
    scripts_of, ControlFiles, ControlFilesView, DebExtractor, DebianPackageMetadata, EntryKind,
    FileInfo, FileInfoView, FileType, MetadataView, Scripts, ScriptsView, WalkEntry,
    WalkEntryView,
};
use crate::extractors::elf::{
    analyze_desktop, desktop_entries_of, ELFInfo, ELFInfoView, ElfOutputs,
};
use crate::render::{decimal, hex, joined, push_decimal, push_hex};
use crate::string_map::StringMap;
use crate::text::{
    chars_of, equals, extend, lowercase, option_view, owned, string_of, string_views,
    to_lowercase,
};
use vstd::prelude::*;

verus! {

/// The largest package that is analysed, in bytes: 500 MiB.
pub const MAX_SIZE: u64 = 500 * 1024 * 1024;

/// The number of bytes in one MiB.
pub const MEBIBYTE: u64 = 1024 * 1024;

/// The largest number of binaries that are analysed in one package.
pub const ELF_ANALYSIS_LIMIT: usize = 20;

// ---------------------------------------------------------------------------
// Checks on the input
// ---------------------------------------------------------------------------

/// Whether a lowercase file extension is that of a package.
pub open spec fn is_package_extension(lower: Seq<char>) -> bool {
    lower == "deb"@ || lower == "udeb"@
}

/// The outcome of the check of a file's extension, given the extension of the
/// path where it has one: up to case it has to be that of a package.
pub open spec fn extension_check_of(extension: Option<Seq<char>>) -> Result<(), Seq<char>> {
    match extension {
        None => Err("Invalid file path"@),
        Some(e) => if is_package_extension(lowercase(e)) {
            Ok(())
        } else {
            Err("Invalid file type. Only .deb and .udeb files are supported"@)
        },
    }
}

/// The message for a package that is too large.
pub open spec fn size_limit_message() -> Seq<char> {
    "File size exceeds "@ + decimal((MAX_SIZE / MEBIBYTE) as nat) + "MB limit"@
}

/// The outcome of the check of a file's size: it may be `MAX_SIZE` and no more.
pub open spec fn size_check_of(size: u64) -> Result<(), Seq<char>> {
    if size <= MAX_SIZE {
        Ok(())
    } else {
        Err(size_limit_message())
    }
}

/// The outcome of the checks on the input, in their order: the extension,
/// whether the file is there, whether its size could be read, the size. Where
/// all pass, the size of the file is the result.
pub open spec fn input_check_of(
    extension: Option<Seq<char>>,
    exists: bool,
    size: Result<u64, String>,
) -> Result<u64, Seq<char>> {
    match extension_check_of(extension) {
        Err(e) => Err(e),
        Ok(_) => if !exists {
            Err("File does not exist"@)
        } else {
            match size {
                Err(e) => Err("Failed to read file metadata: "@ + e@),
                Ok(n) => match size_check_of(n) {
                    Err(e) => Err(e),
                    Ok(_) => Ok(n),
                },
            }
        },
    }
}

/// The view of a result whose error is a message.
pub open spec fn message_view<T>(r: Result<T, String>) -> Result<T, Seq<char>> {
    match r {
        Ok(v) => Ok(v),
        Err(e) => Err(e@),
    }
}

/// Whether a lowercase file extension is that of a package.
pub fn extension_accepted(lower: &str) -> (b: bool)
    ensures
        b == is_package_extension(lower@),
{
    let l = chars_of(lower);
    equals(&l, "deb") || equals(&l, "udeb")
}

/// Checks the extension of the path of a package.
pub fn validate_extension(extension: Option<&str>) -> (r: Result<(), String>)
    ensures
        message_view(r) == extension_check_of(
            match extension {
                Some(e) => Some(e@),
                None => None,
            },
        ),
{
    match extension {
        None => Err(owned("Invalid file path")),
        Some(e) => {
            let lower = to_lowercase(e);
            if extension_accepted(lower.as_str()) {
                Ok(())
            } else {
                Err(owned("Invalid file type. Only .deb and .udeb files are supported"))
            }
        },
    }
}

/// Checks the size of a package.
pub fn validate_size(size: u64) -> (r: Result<(), String>)
    ensures
        message_view(r) == size_check_of(size),
        r is Ok <==> size <= MAX_SIZE,
{
    if size <= MAX_SIZE {
        Ok(())
    } else {
        let mut buf = chars_of("File size exceeds ");
        push_decimal(&mut buf, (MAX_SIZE / MEBIBYTE) as u128);
        let tail = chars_of("MB limit");
        extend(&mut buf, &tail);
        Err(string_of(&buf))
    }
}

/// Checks the input of an analysis: the extension of the path, whether the
/// file is there, and its size as far as it could be read.
pub fn validate_input(extension: Option<&str>, exists: bool, size: Result<u64, String>) -> (r:
    Result<u64, String>)
    ensures
        message_view(r) == input_check_of(
            match extension {
                Some(e) => Some(e@),
                None => None,
            },
            exists,
            size,
        ),
{
    match validate_extension(extension) {
        Err(e) => {
            return Err(e);
        },
        Ok(_) => {},
    }
    if !exists {
        return Err(owned("File does not exist"));
    }
    match size {
        Err(e) => Err(joined("Failed to read file metadata: ", e.as_str())),
        Ok(n) => match validate_size(n) {
            Err(e) => Err(e),
            Ok(_) => Ok(n),
        },
    }
}

/// The message for an unpacking that failed with `cause`.
pub fn extract_failed(cause: &str) -> (message: String)
    ensures
        message@ == "Extract failed: "@ + cause@,
{
    joined("Extract failed: ", cause)
}

// ---------------------------------------------------------------------------
// The scratch directory
// ---------------------------------------------------------------------------

/// The nanoseconds since the Unix epoch, where the clock stands after it.
///
/// Trusted: reads the clock with `SystemTime::now`. Nothing holds of every
/// reading, so nothing is promised.
#[verifier::external_body]
fn nanos_since_epoch() -> Option<u128> {
    std::time::SystemTime::now().duration_since(std::time::UNIX_EPOCH).ok().map(|d| d.as_nanos())
}

/// The identifier made of a reading of the clock: the nanoseconds in
/// hexadecimal.
pub fn uuid_from_nanos(nanos: u128) -> (id: String)
    ensures
        id@ == hex(nanos as nat),
{
    let mut buf: Vec<char> = Vec::new();
    push_hex(&mut buf, nanos);
    assert(Seq::<char>::empty() + hex(nanos as nat) == hex(nanos as nat));
    string_of(&buf)
}

/// An identifier for one run, made of the time: the nanoseconds since the
/// Unix epoch in hexadecimal, and `0` where the clock stands before the epoch.
pub fn get_uuid() -> (id: String)
    ensures
        exists|nanos: u128| id@ == hex(nanos as nat),
{
    let nanos: u128 = match nanos_since_epoch() {
        Some(n) => n,
        None => 0,
    };
    uuid_from_nanos(nanos)
}

/// The name of the scratch directory of the run with the identifier `id`.
pub fn scratch_dir_name(id: &str) -> (name: String)
    ensures
        name@ == "viewdeb_"@ + id@,
{
    joined("viewdeb_", id)
}

// ---------------------------------------------------------------------------
// Which files are analysed
// ---------------------------------------------------------------------------

/// The paths of the manifest entries that are flagged as ELF binaries, in the
/// order of the manifest.
pub open spec fn elf_paths(files: Seq<FileInfoView>) -> Seq<Seq<char>>
    decreases files.len(),
{
    if files.len() == 0 {
        Seq::empty()
    } else if files.last().is_elf {
        elf_paths(files.drop_last()).push(files.last().path)
    } else {
        elf_paths(files.drop_last())
    }
}

/// The paths of the manifest entries that are flagged as desktop files, in
/// the order of the manifest.
pub open spec fn desktop_paths(files: Seq<FileInfoView>) -> Seq<Seq<char>>
    decreases files.len(),
{
    if files.len() == 0 {
        Seq::empty()
    } else if files.last().is_desktop {
        desktop_paths(files.drop_last()).push(files.last().path)
    } else {
        desktop_paths(files.drop_last())
    }
}

/// The first `limit` of some paths; all of them where they are no more.
pub open spec fn first_of(paths: Seq<Seq<char>>, limit: int) -> Seq<Seq<char>> {
    if paths.len() > limit {
        paths.take(limit)
    } else {
        paths
    }
}

/// The paths of the binaries that are analysed: the first
/// `ELF_ANALYSIS_LIMIT` of those that the manifest flags.
pub open spec fn selected_elf_paths(files: Seq<FileInfoView>) -> Seq<Seq<char>> {
    first_of(elf_paths(files), ELF_ANALYSIS_LIMIT as int)
}

/// The binaries that are analysed are the first flagged ones, in the order of
/// the manifest, and there are `ELF_ANALYSIS_LIMIT` of them wherever the
/// manifest flags that many or more.
pub proof fn lemma_selection_is_capped(files: Seq<FileInfoView>)
    ensures
        selected_elf_paths(files).len() == if elf_paths(files).len() > ELF_ANALYSIS_LIMIT {
            ELF_ANALYSIS_LIMIT as nat
        } else {
            elf_paths(files).len()
        },
        forall|i: int|
            0 <= i < selected_elf_paths(files).len() ==> #[trigger] selected_elf_paths(files)[i]
                == elf_paths(files)[i],
{
}

/// The binaries that are analysed.
pub fn select_elf_files(files: &Vec<FileInfo>) -> (paths: Vec<String>)
    ensures
        string_views(paths@) == selected_elf_paths(file_views(files@)),
        paths@.len() <= ELF_ANALYSIS_LIMIT,
{
    let mut paths: Vec<String> = Vec::new();
    let mut i: usize = 0;
    assert(file_views(files@).take(0).len() == 0);
    assert(string_views(paths@) == Seq::<Seq<char>>::empty());
    while i < files.len()
        invariant
            i <= files.len(),
            string_views(paths@) == selected_elf_paths(file_views(files@).take(i as int)),
            paths@.len() <= ELF_ANALYSIS_LIMIT,
        decreases files.len() - i,
    {
        let ghost before = file_views(files@).take(i as int);
        let ghost upto = file_views(files@).take(i + 1);
        let ghost sofar = string_views(paths@);
        proof {
            assert(upto.drop_last() == before);
            assert(upto.last() == files@[i as int]@);
            assert(sofar.len() == paths@.len());
        }
        if files[i].is_elf {
            if paths.len() < ELF_ANALYSIS_LIMIT {
                paths.push(files[i].path.clone());
                proof {
                    assert(string_views(paths@) == sofar.push(files@[i as int]@.path));
                }
            } else {
                proof {
                    let all = elf_paths(before);
                    let more = all.push(files@[i as int]@.path);
                    assert(more.take(ELF_ANALYSIS_LIMIT as int) == all.take(
                        ELF_ANALYSIS_LIMIT as int,
                    ));
                    if all.len() == ELF_ANALYSIS_LIMIT {
                        assert(all.take(ELF_ANALYSIS_LIMIT as int) == all);
                    }
                }
            }
        }
        i = i + 1;
    }
    assert(file_views(files@).take(files.len() as int) == file_views(files@));
    paths
}

/// The desktop files that are analysed: all that the manifest flags.
pub fn select_desktop_files(files: &Vec<FileInfo>) -> (paths: Vec<String>)
    ensures
        string_views(paths@) == desktop_paths(file_views(files@)),
{
    let mut paths: Vec<String> = Vec::new();
    let mut i: usize = 0;
    assert(file_views(files@).take(0).len() == 0);
    assert(string_views(paths@) == Seq::<Seq<char>>::empty());
    while i < files.len()
        invariant
            i <= files.len(),
            string_views(paths@) == desktop_paths(file_views(files@).take(i as int)),
        decreases files.len() - i,
    {
        let ghost sofar = string_views(paths@);
        proof {
            let upto = file_views(files@).take(i + 1);
            assert(upto.drop_last() == file_views(files@).take(i as int));
            assert(upto.last() == files@[i as int]@);
        }
        if files[i].is_desktop {
            paths.push(files[i].path.clone());
            assert(string_views(paths@) == sofar.push(files@[i as int]@.path));
        }
        i = i + 1;
    }
    assert(file_views(files@).take(files.len() as int) == file_views(files@));
    paths
}

/// Records the outcome of the analysis of one binary: what was found goes
/// into the map under the path, and a failure leaves the map as it is.
pub fn record_elf(map: &mut StringMap<ELFInfo>, path: &str, outcome: Result<ELFInfo, String>)
    ensures
        final(map)@ == (match outcome {
            Ok(info) => old(map)@.insert(path@, info@),
            Err(_) => old(map)@,
        }),
        final(map).keys() == (match outcome {
            Ok(_) if !old(map).keys().contains(path@) => old(map).keys().push(path@),
            _ => old(map).keys(),
        }),
{
    match outcome {
        Ok(info) => {
            map.insert(owned(path), info);
        },
        Err(_) => {},
    }
}

/// Records the outcome of the reading of one desktop file: what was found
/// goes into the map under the path, and a failure leaves the map as it is.
pub fn record_desktop(
    map: &mut StringMap<StringMap<String>>,
    path: &str,
    outcome: Result<StringMap<String>, String>,
)
    ensures
        final(map)@ == (match outcome {
            Ok(entries) => old(map)@.insert(path@, entries@),
            Err(_) => old(map)@,
        }),
        final(map).keys() == (match outcome {
            Ok(_) if !old(map).keys().contains(path@) => old(map).keys().push(path@),
            _ => old(map).keys(),
        }),
{
    match outcome {
        Ok(entries) => {
            map.insert(owned(path), entries);
        },
        Err(_) => {},
    }
}

// ---------------------------------------------------------------------------
// Statistics
// ---------------------------------------------------------------------------

/// The figures of one analysis.
#[derive(Clone, Copy, Debug, PartialEq, Eq, Structural)]
pub struct ParseStats {
    /// The time the analysis took, in milliseconds.
    pub parse_time: u64,
    /// The size of the package file.
    pub original_size: u64,
    /// The sizes of the manifest entries other than directories, added up.
    pub extracted_size: u64,
    /// The number of manifest entries.
    pub file_count: usize,
    /// The number of manifest entries flagged as ELF binaries.
    pub elf_count: usize,
    /// The number of manifest entries flagged as desktop files.
    pub desktop_count: usize,
}

/// The sizes of the manifest entries other than directories, added up.
pub open spec fn extracted_size_of(files: Seq<FileInfoView>) -> nat
    decreases files.len(),
{
    if files.len() == 0 {
        0
    } else {
        extracted_size_of(files.drop_last()) + if files.last().file_type != FileType::Directory {
            files.last().size as nat
        } else {
            0
        }
    }
}

/// The figures of an analysis with the manifest `files`. The extracted size
/// is the sum modulo 2^64, and so the sum itself wherever it fits 64 bits.
pub open spec fn stats_of(files: Seq<FileInfoView>, original_size: u64, parse_time: u64)
    -> ParseStats {
    ParseStats {
        parse_time,
        original_size,
        extracted_size: (extracted_size_of(files) % 0x1_0000_0000_0000_0000) as u64,
        file_count: files.len() as usize,
        elf_count: elf_paths(files).len() as usize,
        desktop_count: desktop_paths(files).len() as usize,
    }
}

/// There are no more flagged entries than entries.
pub proof fn lemma_counts_bounded(files: Seq<FileInfoView>)
    ensures
        elf_paths(files).len() <= files.len(),
        desktop_paths(files).len() <= files.len(),
    decreases files.len(),
{
    if files.len() > 0 {
        lemma_counts_bounded(files.drop_last());
    }
}

/// Computes the figures of an analysis from its manifest.
pub fn compute_stats(files: &Vec<FileInfo>, original_size: u64, parse_time: u64) -> (stats:
    ParseStats)
    ensures
        stats == stats_of(file_views(files@), original_size, parse_time),
        stats.file_count == files@.len(),
        extracted_size_of(file_views(files@)) <= u64::MAX ==> stats.extracted_size
            == extracted_size_of(file_views(files@)),
{
    let mut sum: u128 = 0;
    let mut elf_count: usize = 0;
    let mut desktop_count: usize = 0;
    let mut i: usize = 0;
    assert(file_views(files@).take(0).len() == 0);
    while i < files.len()
        invariant
            i <= files.len(),
            sum == extracted_size_of(file_views(files@).take(i as int)),
            sum <= i * 0xFFFF_FFFF_FFFF_FFFF,
            elf_count == elf_paths(file_views(files@).take(i as int)).len(),
            desktop_count == desktop_paths(file_views(files@).take(i as int)).len(),
            elf_count <= i,
            desktop_count <= i,
        decreases files.len() - i,
    {
        proof {
            let upto = file_views(files@).take(i + 1);
            assert(upto.drop_last() == file_views(files@).take(i as int));
            assert(upto.last() == files@[i as int]@);
        }
        if files[i].file_type != FileType::Directory {
            sum = sum + files[i].size as u128;
        }
        if files[i].is_elf {
            elf_count = elf_count + 1;
        }
        if files[i].is_desktop {
            desktop_count = desktop_count + 1;
        }
        i = i + 1;
    }
    assert(file_views(files@).take(files.len() as int) == file_views(files@));
    ParseStats {
        parse_time,
        original_size,
        extracted_size: (sum % 0x1_0000_0000_0000_0000u128) as u64,
        file_count: files.len(),
        elf_count,
        desktop_count,
    }
}

/// The sizes of the listed walk entries other than directories, added up.
pub open spec fn listed_payload_size(entries: Seq<WalkEntryView>) -> nat
    decreases entries.len(),
{
    if entries.len() == 0 {
        0
    } else {
        let e = entries.last();
        listed_payload_size(entries.drop_last()) + if is_listed(e) && e.kind
            != EntryKind::Directory {
            e.metadata->0.size as nat
        } else {
            0
        }
    }
}

/// The figures of a manifest count what the walk met: the number of files is
/// the number of the entries of the payload tree that are no symbolic links
/// (the root and unreadable entries left out), and the extracted size is the
/// sum of the sizes of those among them that are no directories, wherever
/// that sum fits 64 bits.
pub proof fn lemma_stats_count_the_payload(
    entries: Seq<WalkEntryView>,
    original_size: u64,
    parse_time: u64,
)
    requires
        entries.len() <= usize::MAX,
    ensures
        stats_of(manifest_of(entries), original_size, parse_time).file_count == listed_count(
            entries,
        ),
        extracted_size_of(manifest_of(entries)) == listed_payload_size(entries),
        listed_payload_size(entries) <= u64::MAX ==> stats_of(
            manifest_of(entries),
            original_size,
            parse_time,
        ).extracted_size == listed_payload_size(entries),
    decreases entries.len(),
{
    crate::extractors::deb::lemma_manifest(entries);
    lemma_payload_size(entries);
}

proof fn lemma_payload_size(entries: Seq<WalkEntryView>)
    ensures
        extracted_size_of(manifest_of(entries)) == listed_payload_size(entries),
    decreases entries.len(),
{
    if entries.len() > 0 {
        lemma_payload_size(entries.drop_last());
        let front = manifest_of(entries.drop_last());
        if is_listed(entries.last()) {
            let info = crate::extractors::deb::file_info_of(entries.last());
            assert(front.push(info).drop_last() == front);
        }
    }
}

// ---------------------------------------------------------------------------
// The report
// ---------------------------------------------------------------------------

/// The report on one package.
#[derive(Debug, Clone)]
pub struct ParseResult {
    pub metadata: DebianPackageMetadata,
    pub files: Vec<FileInfo>,
    pub scripts: Option<Scripts>,
    pub control_files: ControlFiles,
    /// What the analysis of the binaries found, by path; absent where it
    /// found nothing.
    pub elf_info: Option<StringMap<ELFInfo>>,
    /// What the desktop files hold, by path; absent where none was read.
    pub desktop_info: Option<StringMap<StringMap<String>>>,
    pub stats: ParseStats,
}

/// The mathematical content of a [`ParseResult`].
pub struct ParseResultView {
    pub metadata: MetadataView,
    pub files: Seq<FileInfoView>,
    pub scripts: Option<ScriptsView>,
    pub control_files: ControlFilesView,
    pub elf_info: Option<Map<Seq<char>, ELFInfoView>>,
    pub desktop_info: Option<Map<Seq<char>, Map<Seq<char>, Seq<char>>>>,
    pub stats: ParseStats,
}

impl View for ParseResult {
    type V = ParseResultView;

    open spec fn view(&self) -> ParseResultView {
        ParseResultView {
            metadata: self.metadata@,
            files: file_views(self.files@),
            scripts: match self.scripts {
                Some(s) => Some(s@),
                None => None,
            },
            control_files: self.control_files@,
            elf_info: match self.elf_info {
                Some(m) => Some(m@),
                None => None,
            },
            desktop_info: match self.desktop_info {
                Some(m) => Some(m@),
                None => None,
            },
            stats: self.stats,
        }
    }
}

/// A map, or nothing where it is empty.
pub open spec fn unless_empty<T>(m: Map<Seq<char>, T>) -> Option<Map<Seq<char>, T>> {
    if m == Map::<Seq<char>, T>::empty() {
        None
    } else {
        Some(m)
    }
}

impl ParseResult {
    /// Puts the report together. The statistics are those of the manifest,
    /// and a map of findings that is empty is left out.
    pub fn assemble(
        metadata: DebianPackageMetadata,
        files: Vec<FileInfo>,
        scripts: Option<Scripts>,
        control_files: ControlFiles,
        elf_info: StringMap<ELFInfo>,
        desktop_info: StringMap<StringMap<String>>,
        original_size: u64,
        parse_time: u64,
    ) -> (report: ParseResult)
        ensures
            report@ == (ParseResultView {
                metadata: metadata@,
                files: file_views(files@),
                scripts: match scripts {
                    Some(s) => Some(s@),
                    None => None,
                },
                control_files: control_files@,
                elf_info: unless_empty(elf_info@),
                desktop_info: unless_empty(desktop_info@),
                stats: stats_of(file_views(files@), original_size, parse_time),
            }),
            report.files == files,
            report.elf_info matches Some(m) ==> m.keys() == elf_info.keys(),
            report.desktop_info matches Some(m) ==> m.keys() == desktop_info.keys(),
    {
        let stats = compute_stats(&files, original_size, parse_time);
        let elf_info = if elf_info.is_empty() {
            None
        } else {
            Some(elf_info)
        };
        let desktop_info = if desktop_info.is_empty() {
            None
        } else {
            Some(desktop_info)
        };
        ParseResult { metadata, files, scripts, control_files, elf_info, desktop_info, stats }
    }
}

// ---------------------------------------------------------------------------
// The run of an analysis
// ---------------------------------------------------------------------------

/// What the reading of an unpacked package gave.
#[derive(Debug)]
pub struct Contents {
    /// The text of the control file.
    pub control: Result<String, String>,
    /// What the walk of the payload tree met.
    pub entries: Result<Vec<WalkEntry>, String>,
    /// The files of the control directory that could be read, by name; absent
    /// where the directory could not be looked into.
    pub scripts: Option<Vec<(String, String)>>,
    /// The list of checksums, where the package has one.
    pub md5sums: Option<String>,
    /// The list of configuration files, where the package has one.
    pub conffiles: Option<String>,
}

/// What the inspection of the chosen files gave.
#[derive(Debug)]
pub struct Findings {
    /// For each binary that was inspected, its path in the manifest and the
    /// outputs of the four runs.
    pub binaries: Vec<(String, ElfOutputs)>,
    /// For each desktop file that was opened, its path in the manifest and
    /// its text.
    pub desktop_files: Vec<(String, Result<String, String>)>,
}

/// What has been gathered for the report on one package. A step that has not
/// been taken yet is absent.
#[derive(Debug)]
pub struct Gathered {
    /// The extension of the path of the package, where it has one.
    pub extension: Option<String>,
    /// Whether the package file is there.
    pub exists: bool,
    /// The size of the package file.
    pub size: Result<u64, String>,
    /// The creation of the scratch directory.
    pub scratch: Option<Result<(), String>>,
    /// The unpacking of the package into the scratch directory.
    pub extraction: Option<Result<(), String>>,
    /// The reading of what was unpacked.
    pub contents: Option<Contents>,
    /// The inspection of the chosen files.
    pub findings: Option<Findings>,
    /// The time spent so far, in milliseconds.
    pub parse_time: u64,
}

/// What the caller is asked to do next.
#[derive(Debug)]
pub enum Step {
    /// Create the scratch directory of this run.
    CreateScratch,
    /// Unpack the package into the scratch directory.
    Extract,
    /// Read the control file, the payload tree, the scripts and the control
    /// files.
    ReadContents,
    /// Inspect these binaries and open these desktop files.
    Analyze { binaries: Vec<String>, desktop_files: Vec<String> },
    /// Nothing is left to do: the report can be made.
    Finish,
}

/// The mathematical content of a [`Step`].
pub enum StepView {
    CreateScratch,
    Extract,
    ReadContents,
    Analyze { binaries: Seq<Seq<char>>, desktop_files: Seq<Seq<char>> },
    Finish,
}

impl View for Step {
    type V = StepView;

    open spec fn view(&self) -> StepView {
        match self {
            Step::CreateScratch => StepView::CreateScratch,
            Step::Extract => StepView::Extract,
            Step::ReadContents => StepView::ReadContents,
            Step::Analyze { binaries, desktop_files } => StepView::Analyze {
                binaries: string_views(binaries@),
                desktop_files: string_views(desktop_files@),
            },
            Step::Finish => StepView::Finish,
        }
    }
}

impl Gathered {
    /// The outcome of the checks on the input.
    pub open spec fn input_check(self) -> Result<u64, Seq<char>> {
        input_check_of(option_view(self.extension), self.exists, self.size)
    }

    /// The manifest of the payload, where the unpacked package was read and
    /// both the control file and the payload tree could be.
    pub open spec fn manifest(self) -> Option<Seq<FileInfoView>> {
        match self.contents {
            Some(c) => match (c.control, c.entries) {
                (Ok(_), Ok(entries)) => Some(manifest_of(entry_views(entries@))),
                _ => None,
            },
            None => None,
        }
    }

    /// The step that is due.
    ///
    /// The steps are taken in their order: the scratch directory, the
    /// unpacking, the reading, the inspection. Nothing is begun on an input
    /// that fails the checks, and nothing more is done once a step has failed
    /// that the report cannot do without.
    pub open spec fn next_step(self) -> StepView {
        if self.input_check() is Err {
            StepView::Finish
        } else {
            match self.scratch {
                None => StepView::CreateScratch,
                Some(Err(_)) => StepView::Finish,
                Some(Ok(_)) => match self.extraction {
                    None => StepView::Extract,
                    Some(Err(_)) => StepView::Finish,
                    Some(Ok(_)) => match self.contents {
                        None => StepView::ReadContents,
                        Some(_) => match self.manifest() {
                            None => StepView::Finish,
                            Some(files) => match self.findings {
                                None => StepView::Analyze {
                                    binaries: selected_elf_paths(files),
                                    desktop_files: desktop_paths(files),
                                },
                                Some(_) => StepView::Finish,
                            },
                        },
                    },
                },
            }
        }
    }

    /// The report that is made of what was gathered, or the message of the
    /// first step that failed among those that the report cannot do without:
    /// the checks on the input, the scratch directory, the unpacking, the
    /// control file, the walk of the payload tree.
    ///
    /// The scripts, the two lists beside the control file and what the
    /// inspection of single files gives are taken where they are there.
    pub open spec fn report(self) -> Result<ParseResultView, Seq<char>>
        recommends
            self.next_step() is Finish,
    {
        match self.input_check() {
            Err(e) => Err(e),
            Ok(original_size) => match self.scratch {
                Some(Err(e)) => Err("Failed to create temp directory: "@ + e@),
                _ => match self.extraction {
                    Some(Err(e)) => Err("Extract failed: "@ + e@),
                    _ => match self.contents {
                        Some(
                            Contents { control: Err(e), .. },
                        ) => Err("Failed to read control file: "@ + e@),
                        Some(Contents { control: Ok(_), entries: Err(e), .. }) => Err(e@),
                        Some(
                            Contents { control: Ok(control), entries: Ok(entries), scripts, md5sums, conffiles },
                        ) => {
                            let files = manifest_of(entry_views(entries@));
                            Ok(
                                ParseResultView {
                                    metadata: metadata_of(control@),
                                    files,
                                    scripts: match scripts {
                                        Some(found) => Some(scripts_of(pair_views(found@))),
                                        None => None,
                                    },
                                    control_files: ControlFilesView {
                                        control: control@,
                                        md5sums: option_view(md5sums),
                                        conffiles: option_view(conffiles),
                                    },
                                    elf_info: unless_empty(
                                        elf_findings_of(
                                            selected_elf_paths(files),
                                            match self.findings {
                                                Some(f) => f.binaries@,
                                                None => Seq::empty(),
                                            },
                                        ),
                                    ),
                                    desktop_info: unless_empty(
                                        desktop_findings_of(
                                            desktop_paths(files),
                                            match self.findings {
                                                Some(f) => f.desktop_files@,
                                                None => Seq::empty(),
                                            },
                                        ),
                                    ),
                                    stats: stats_of(files, original_size, self.parse_time),
                                },
                            )
                        },
                        None => Err(Seq::empty()),
                    },
                },
            },
        }
    }
}

/// What the inspection found in the binaries: for each run on a chosen path
/// whose analysis succeeded, what it found, by path. A run on a path that was
/// not chosen counts for nothing, and of two runs on one path the later one.
pub open spec fn elf_findings_of(chosen: Seq<Seq<char>>, runs: Seq<(String, ElfOutputs)>) -> Map<
    Seq<char>,
    ELFInfoView,
>
    decreases runs.len(),
{
    if runs.len() == 0 {
        Map::empty()
    } else {
        let sofar = elf_findings_of(chosen, runs.drop_last());
        let run = runs.last();
        match run.1.analysis() {
            Ok(info) if chosen.contains(run.0@) => sofar.insert(run.0@, info),
            _ => sofar,
        }
    }
}

/// What the desktop files hold: for each chosen path whose file could be
/// read, its entries, by path.
pub open spec fn desktop_findings_of(
    chosen: Seq<Seq<char>>,
    reads: Seq<(String, Result<String, String>)>,
) -> Map<Seq<char>, Map<Seq<char>, Seq<char>>>
    decreases reads.len(),
{
    if reads.len() == 0 {
        Map::empty()
    } else {
        let sofar = desktop_findings_of(chosen, reads.drop_last());
        let read = reads.last();
        match read.1 {
            Ok(text) if chosen.contains(read.0@) => sofar.insert(
                read.0@,
                desktop_entries_of(text@),
            ),
            _ => sofar,
        }
    }
}

/// Nothing is found but under the chosen paths.
pub proof fn lemma_findings_are_chosen(
    chosen: Seq<Seq<char>>,
    runs: Seq<(String, ElfOutputs)>,
    reads: Seq<(String, Result<String, String>)>,
)
    ensures
        elf_findings_of(chosen, runs).dom().subset_of(chosen.to_set()),
        desktop_findings_of(chosen, reads).dom().subset_of(chosen.to_set()),
    decreases runs.len() + reads.len(),
{
    if runs.len() > 0 {
        lemma_findings_are_chosen(chosen, runs.drop_last(), Seq::empty());
    }
    if reads.len() > 0 {
        lemma_findings_are_chosen(chosen, Seq::empty(), reads.drop_last());
    }
}

/// However many binaries the manifest flags and however many runs are handed
/// in, the report holds findings for no more than `ELF_ANALYSIS_LIMIT` of
/// them, and only for the first flagged ones.
pub proof fn lemma_report_caps_the_binaries(g: Gathered)
    ensures
        match g.report() {
            Ok(ParseResultView { files, elf_info: Some(m), .. }) => m.dom().finite() && m.dom().len()
                <= ELF_ANALYSIS_LIMIT && m.dom().subset_of(selected_elf_paths(files).to_set()),
            _ => true,
        },
{
    match g.report() {
        Ok(ParseResultView { files, elf_info: Some(m), .. }) => {
            let chosen = selected_elf_paths(files);
            let runs = match g.findings {
                Some(f) => f.binaries@,
                None => Seq::empty(),
            };
            lemma_findings_are_chosen(chosen, runs, Seq::empty());
            lemma_selection_is_capped(files);
            chosen.lemma_cardinality_of_set();
            vstd::seq_lib::seq_to_set_is_finite(chosen);
            vstd::set_lib::lemma_len_subset(m.dom(), chosen.to_set());
        },
        _ => {},
    }
}

/// Whether `list` holds `s`.
fn holds(list: &Vec<String>, s: &str) -> (b: bool)
    ensures
        b == string_views(list@).contains(s@),
{
    let wanted: String = owned(s);
    let mut i: usize = 0;
    while i < list.len()
        invariant
            i <= list.len(),
            wanted@ == s@,
            forall|j: int| 0 <= j < i ==> string_views(list@)[j] != s@,
        decreases list.len() - i,
    {
        if list[i] == wanted {
            assert(string_views(list@)[i as int] == s@);
            return true;
        }
        i = i + 1;
    }
    false
}

/// Gathers what the inspection found in the binaries.
fn collect_elf(chosen: &Vec<String>, runs: &Vec<(String, ElfOutputs)>) -> (map: StringMap<ELFInfo>)
    ensures
        map@ == elf_findings_of(string_views(chosen@), runs@),
{
    let mut map: StringMap<ELFInfo> = StringMap::new();
    let mut i: usize = 0;
    assert(runs@.take(0).len() == 0);
    while i < runs.len()
        invariant
            i <= runs.len(),
            map@ == elf_findings_of(string_views(chosen@), runs@.take(i as int)),
        decreases runs.len() - i,
    {
        proof {
            let upto = runs@.take(i + 1);
            assert(upto.drop_last() == runs@.take(i as int));
            assert(upto.last() == runs@[i as int]);
        }
        if holds(chosen, runs[i].0.as_str()) {
            record_elf(&mut map, runs[i].0.as_str(), runs[i].1.analyze());
        }
        i = i + 1;
    }
    assert(runs@.take(runs.len() as int) == runs@);
    map
}

/// Gathers what the desktop files hold.
fn collect_desktop(chosen: &Vec<String>, reads: &Vec<(String, Result<String, String>)>) -> (map:
    StringMap<StringMap<String>>)
    ensures
        map@ == desktop_findings_of(string_views(chosen@), reads@),
{
    let mut map: StringMap<StringMap<String>> = StringMap::new();
    let mut i: usize = 0;
    assert(reads@.take(0).len() == 0);
    while i < reads.len()
        invariant
            i <= reads.len(),
            map@ == desktop_findings_of(string_views(chosen@), reads@.take(i as int)),
        decreases reads.len() - i,
    {
        proof {
            let upto = reads@.take(i + 1);
            assert(upto.drop_last() == reads@.take(i as int));
            assert(upto.last() == reads@[i as int]);
        }
        if holds(chosen, reads[i].0.as_str()) {
            match &reads[i].1 {
                Ok(text) => {
                    record_desktop(&mut map, reads[i].0.as_str(), Ok(analyze_desktop(text.as_str())));
                },
                Err(_) => {},
            }
        }
        i = i + 1;
    }
    assert(reads@.take(reads.len() as int) == reads@);
    map
}

/// The view of the result of an analysis.
pub open spec fn report_view(r: Result<ParseResult, String>) -> Result<ParseResultView, Seq<char>> {
    match r {
        Ok(report) => Ok(report@),
        Err(e) => Err(e@),
    }
}

impl Gathered {
    /// What is known before any step is taken: the extension of the path of
    /// the package, whether the file is there, and its size.
    pub fn start(extension: Option<String>, exists: bool, size: Result<u64, String>) -> (g: Self)
        ensures
            g == (Gathered {
                extension,
                exists,
                size,
                scratch: None,
                extraction: None,
                contents: None,
                findings: None,
                parse_time: 0,
            }),
    {
        Gathered {
            extension,
            exists,
            size,
            scratch: None,
            extraction: None,
            contents: None,
            findings: None,
            parse_time: 0,
        }
    }

    /// Whether the checks on the input pass.
    fn input_passes(&self) -> (b: bool)
        ensures
            b == self.input_check() is Ok,
    {
        let extension = match &self.extension {
            Some(e) => Some(e.as_str()),
            None => None,
        };
        let size = match &self.size {
            Ok(n) => Ok(*n),
            Err(_) => Err(String::new()),
        };
        validate_input(extension, self.exists, size).is_ok()
    }
}

/// Says what is to be done next for the report on a package.
pub fn next_step(g: &Gathered) -> (step: Step)
    ensures
        step@ == g.next_step(),
{
    if !g.input_passes() {
        return Step::Finish;
    }
    match &g.scratch {
        None => {
            return Step::CreateScratch;
        },
        Some(Err(_)) => {
            return Step::Finish;
        },
        Some(Ok(_)) => {},
    }
    match &g.extraction {
        None => {
            return Step::Extract;
        },
        Some(Err(_)) => {
            return Step::Finish;
        },
        Some(Ok(_)) => {},
    }
    let contents = match &g.contents {
        None => {
            return Step::ReadContents;
        },
        Some(c) => c,
    };
    if contents.control.is_err() {
        return Step::Finish;
    }
    let entries = match &contents.entries {
        Err(_) => {
            return Step::Finish;
        },
        Ok(entries) => entries,
    };
    if g.findings.is_some() {
        return Step::Finish;
    }
    let files = DebExtractor::list_files(entries);
    Step::Analyze {
        binaries: select_elf_files(&files),
        desktop_files: select_desktop_files(&files),
    }
}

/// Makes the report on a package of what was gathered for it, once nothing is
/// left to do.
pub fn parse_deb_package(g: Gathered) -> (r: Result<ParseResult, String>)
    requires
        g.next_step() is Finish,
    ensures
        report_view(r) == g.report(),
{
    let Gathered { extension, exists, size, scratch, extraction, contents, findings, parse_time } =
        g;
    let ext = match &extension {
        Some(e) => Some(e.as_str()),
        None => None,
    };
    let original_size = match validate_input(ext, exists, size) {
        Err(e) => {
            return Err(e);
        },
        Ok(n) => n,
    };
    match scratch {
        Some(Err(e)) => {
            return Err(joined("Failed to create temp directory: ", e.as_str()));
        },
        _ => {},
    }
    match extraction {
        Some(Err(e)) => {
            return Err(extract_failed(e.as_str()));
        },
        _ => {},
    }
    let Contents { control, entries, scripts, md5sums, conffiles } = match contents {
        Some(c) => c,
        None => {
            return Err(String::new());
        },
    };
    let control = match control {
        Err(e) => {
            return Err(joined("Failed to read control file: ", e.as_str()));
        },
        Ok(c) => c,
    };
    let entries = match entries {
        Err(e) => {
            return Err(e);
        },
        Ok(entries) => entries,
    };
    let metadata = DebExtractor::parse_metadata(control.as_str());
    let files = DebExtractor::list_files(&entries);
    let scripts = match scripts {
        Some(found) => Some(DebExtractor::parse_scripts(&found)),
        None => None,
    };
    let control_files = ControlFiles { control, md5sums, conffiles };
    let chosen_binaries = select_elf_files(&files);
    let chosen_desktop_files = select_desktop_files(&files);
    let (elf_info, desktop_info) = match &findings {
        Some(f) => (
            collect_elf(&chosen_binaries, &f.binaries),
            collect_desktop(&chosen_desktop_files, &f.desktop_files),
        ),
        None => (StringMap::new(), StringMap::new()),
    };
    Ok(
        ParseResult::assemble(
            metadata,
            files,
            scripts,
            control_files,
            elf_info,
            desktop_info,
            original_size,
            parse_time,
        ),
    )
}

} // verus!
