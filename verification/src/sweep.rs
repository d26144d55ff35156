//! The decisions of a sweep, taken one event at a time: which request can
//! run, which file found by the walk is read, and what its text or its
//! failure adds to the outcome. Walking the folder, reading files and the
//! clock stay with the caller, which hands their results in as plain values.

use vstd::prelude::*;

use crate::globs::{compile_glob, compiled_glob, glob_admits, matches_glob, opt_glob_view, FileGlob, FileGlobView};
use crate::paths::{
    display_path, display_path_spec, is_binary_path, is_unsupported_binary_file, path_equal, same_path,
};
use crate::patterns::{compile_patterns, first_regex_error, pattern_sources, pattern_views, CompiledPattern, PatternView};
use crate::records::{
    MatchRecordView, collect_matches, error_view, error_views, file_records, record_views, FileError, MatchRecord,
};
use crate::summary::SweepData;
use crate::text::{texts, trim, trim_seq};

verus! {

/// What the user asked to sweep.
pub struct SweepRequest {
    pub patterns: Vec<String>,
    pub folder: String,
    pub output_path: String,
    pub include_hidden: bool,
    pub ignore_case: bool,
    pub include_capture_groups: bool,
    pub glob: Option<String>,
}

/// A sweep ready to run: the folder, the report's own location, the
/// compiled patterns and glob.
pub struct SweepPlan {
    root: String,
    output_path: String,
    patterns: Vec<CompiledPattern>,
    glob: Option<FileGlob>,
    include_capture_groups: bool,
}

/// A sweep plan as plain values.
pub struct SweepPlanView {
    pub root: Seq<char>,
    pub output_path: Seq<char>,
    pub patterns: Seq<PatternView>,
    pub glob: Option<FileGlobView>,
    pub include_capture_groups: bool,
}

impl View for SweepPlan {
    type V = SweepPlanView;

    closed spec fn view(&self) -> SweepPlanView {
        SweepPlanView {
            root: self.root@,
            output_path: self.output_path@,
            patterns: pattern_views(self.patterns@),
            glob: opt_glob_view(self.glob),
            include_capture_groups: self.include_capture_groups,
        }
    }
}

/// The message for a folder that does not exist.
pub open spec fn missing_root_message() -> Seq<char> {
    "Choose a folder that exists before exporting."@
}

/// The message for a request without any pattern.
pub open spec fn no_pattern_message() -> Seq<char> {
    "Add at least one regex pattern before exporting."@
}

/// The optional glob text of a request.
pub open spec fn opt_glob_text(g: Option<String>) -> Option<Seq<char>> {
    match g {
        Some(t) => Some(t@),
        None => None,
    }
}

/// What a request becomes: the first of these that applies decides. The
/// folder must exist; every pattern must build; at least one pattern must
/// be left after blank ones are dropped; the glob must parse.
pub open spec fn planned_sweep(
    request: SweepRequest,
    root_is_dir: bool,
    output_path: Seq<char>,
) -> Result<SweepPlanView, Seq<char>> {
    let sources = pattern_sources(texts(request.patterns@));
    if !root_is_dir {
        Err(missing_root_message())
    } else if let Some(m) = first_regex_error(sources, request.ignore_case) {
        Err(m)
    } else if sources.len() == 0 {
        Err(no_pattern_message())
    } else {
        match compiled_glob(opt_glob_text(request.glob)) {
            Err(m) => Err(m),
            Ok(glob) => Ok(
                SweepPlanView {
                    root: trim_seq(request.folder@),
                    output_path,
                    patterns: sources.map_values(
                        |s: Seq<char>| PatternView { source: s, ignore_case: request.ignore_case },
                    ),
                    glob,
                    include_capture_groups: request.include_capture_groups,
                },
            ),
        }
    }
}

/// The folder to sweep: the request's folder, trimmed.
pub fn sweep_root(request: &SweepRequest) -> (r: String)
    ensures
        r@ == trim_seq(request.folder@),
{
    trim(request.folder.as_str())
}

/// Where the report goes: the request's output path, trimmed.
pub fn sweep_output_target(request: &SweepRequest) -> (r: String)
    ensures
        r@ == trim_seq(request.output_path@),
{
    trim(request.output_path.as_str())
}

/// Prepares a sweep. `root_is_dir` says whether the trimmed folder is a
/// directory; `output_path` is the report's location as file paths are
/// compared (see `comparable_path`).
pub fn plan_sweep(request: &SweepRequest, root_is_dir: bool, output_path: String) -> (r: Result<
    SweepPlan,
    String,
>)
    ensures
        planned_sweep(*request, root_is_dir, output_path@) == (match r {
            Ok(plan) => Ok(plan@),
            Err(m) => Err(m@),
        }),
{
    if !root_is_dir {
        return Err(String::from_str("Choose a folder that exists before exporting."));
    }
    assert(request.patterns@.map_values(|p: String| p@) =~= texts(request.patterns@));
    let ghost sources = pattern_sources(texts(request.patterns@));
    let patterns = match compile_patterns(request.patterns.as_slice(), request.ignore_case) {
        Ok(p) => p,
        Err(m) => return Err(m),
    };
    if patterns.len() == 0 {
        assert(sources.map_values(
            |s: Seq<char>| PatternView { source: s, ignore_case: request.ignore_case },
        ).len() == 0);
        return Err(String::from_str("Add at least one regex pattern before exporting."));
    }
    assert(pattern_views(patterns@).len() == patterns@.len());
    assert(sources.len() > 0);
    let glob = match &request.glob {
        Some(g) => {
            let r = compile_glob(Some(g.as_str()));
            assert(opt_glob_text(request.glob) == Some(g@));
            r
        },
        None => compile_glob(None),
    };
    assert(compiled_glob(opt_glob_text(request.glob)) == (match glob {
        Ok(g) => Ok(opt_glob_view(g)),
        Err(m) => Err(m@),
    }));
    let glob = match glob {
        Ok(g) => g,
        Err(m) => return Err(m),
    };
    Ok(SweepPlan {
        root: trim(request.folder.as_str()),
        output_path,
        patterns,
        glob,
        include_capture_groups: request.include_capture_groups,
    })
}

/// What reading a file gave: its text, a refusal because it is not UTF-8,
/// or another failure with its message.
pub enum FileRead {
    Text(String),
    NotUtf8,
    Failed(String),
}

/// What a sweep has gathered so far. Only the sweep's own steps change it.
pub struct SweepProgress {
    files_scanned: usize,
    records: Vec<MatchRecord>,
    errors: Vec<FileError>,
}

/// The gathered state as plain values.
pub struct SweepProgressView {
    pub files_scanned: usize,
    pub records: Seq<MatchRecordView>,
    pub errors: Seq<(Seq<char>, Seq<char>)>,
}

impl View for SweepProgress {
    type V = SweepProgressView;

    closed spec fn view(&self) -> SweepProgressView {
        SweepProgressView {
            files_scanned: self.files_scanned,
            records: record_views(self.records@),
            errors: error_views(self.errors@),
        }
    }
}

/// The path recorded for a failure of the walk itself.
pub open spec fn unknown_path() -> Seq<char> {
    "Unknown path"@
}

impl SweepProgress {
    /// A sweep that has gathered nothing.
    pub fn new() -> (p: SweepProgress)
        ensures
            p@.files_scanned == 0,
            p@.records.len() == 0,
            p@.errors.len() == 0,
    {
        let p = SweepProgress { files_scanned: 0, records: Vec::new(), errors: Vec::new() };
        assert(p@.records =~= Seq::<MatchRecordView>::empty());
        assert(p@.errors =~= Seq::<(Seq<char>, Seq<char>)>::empty());
        p
    }

    /// How many files were read as text.
    pub fn files_scanned(&self) -> (n: usize)
        ensures
            n == self@.files_scanned,
    {
        self.files_scanned
    }

    /// The match records gathered so far.
    pub fn records(&self) -> (r: &Vec<MatchRecord>)
        ensures
            record_views(r@) == self@.records,
    {
        &self.records
    }

    /// The failures recorded so far.
    pub fn errors(&self) -> (r: &Vec<FileError>)
        ensures
            error_views(r@) == self@.errors,
    {
        &self.errors
    }

    /// Records that the walk of the folder failed with `message`.
    pub fn record_walk_error(&mut self, message: String)
        ensures
            final(self)@.files_scanned == old(self)@.files_scanned,
            final(self)@.records == old(self)@.records,
            final(self)@.errors == old(self)@.errors.push((unknown_path(), message@)),
    {
        let ghost before = self.errors@;
        let e = FileError { path: String::from_str("Unknown path"), error: message };
        self.errors.push(e);
        assert(error_views(self.errors@) =~= error_views(before).push(error_view(e)));
    }
}

/// Whether the walk's entry `path` is read: it is not the report itself,
/// it is a file, it passes the glob, and it is not a binary file.
pub open spec fn is_read(
    plan: SweepPlanView,
    path: Seq<char>,
    comparable: Seq<char>,
    is_file: bool,
) -> bool {
    &&& !path_equal(comparable, plan.output_path)
    &&& is_file
    &&& glob_admits(path, plan.root, plan.glob)
    &&& !is_binary_path(path)
}

impl SweepPlan {
    /// Whether to read the walk's entry `path`; `comparable` is its path as
    /// paths are compared, and `is_file` whether it is a file.
    pub fn should_read(&self, path: &str, comparable: &str, is_file: bool) -> (b: bool)
        ensures
            b == is_read(self@, path@, comparable@, is_file),
    {
        if same_path(comparable, self.output_path.as_str()) {
            return false;
        }
        let glob = match &self.glob {
            Some(g) => Some(g),
            None => None,
        };
        if !is_file || !matches_glob(path, self.root.as_str(), glob) {
            return false;
        }
        !is_unsupported_binary_file(path)
    }

    /// Takes in what reading the file `path` gave, for an entry that
    /// `should_read` admits (`comparable` as given to it, and a file): its
    /// text counts the file as scanned and adds its matches; a failure other
    /// than non-UTF-8 text is recorded against the file's shown path.
    pub fn accept_file(
        &self,
        progress: &mut SweepProgress,
        path: &str,
        comparable: &str,
        read: FileRead,
    )
        requires
            old(progress)@.files_scanned < usize::MAX,
            is_read(self@, path@, comparable@, true),
        ensures
            match read {
                FileRead::Text(content) => {
                    &&& final(progress)@.files_scanned == old(progress)@.files_scanned + 1
                    &&& final(progress)@.records == old(progress)@.records + file_records(
                        path@,
                        self@.root,
                        content@,
                        self@.patterns,
                        self@.include_capture_groups,
                    )
                    &&& final(progress)@.errors == old(progress)@.errors
                },
                FileRead::NotUtf8 => final(progress)@ == old(progress)@,
                FileRead::Failed(message) => {
                    &&& final(progress)@.files_scanned == old(progress)@.files_scanned
                    &&& final(progress)@.records == old(progress)@.records
                    &&& final(progress)@.errors == old(progress)@.errors.push(
                        (display_path_spec(path@, self@.root), message@),
                    )
                },
            },
    {
        match read {
            FileRead::Text(content) => {
                progress.files_scanned = progress.files_scanned + 1;
                collect_matches(
                    path,
                    self.root.as_str(),
                    content.as_str(),
                    self.patterns.as_slice(),
                    self.include_capture_groups,
                    &mut progress.records,
                );
            },
            FileRead::NotUtf8 => {},
            FileRead::Failed(message) => {
                let ghost before = progress.errors@;
                let e = FileError { path: display_path(path, self.root.as_str()), error: message };
                progress.errors.push(e);
                assert(error_views(progress.errors@) =~= error_views(before).push(error_view(e)));
            },
        }
    }

    /// The outcome of the sweep, stamped with `scan_date_time`.
    pub fn finish(self, progress: SweepProgress, scan_date_time: String) -> (data: SweepData)
        ensures
            data.folder_scanned@ == self@.root,
            data.scan_date_time@ == scan_date_time@,
            texts(data.patterns@) == self@.patterns.map_values(|p: PatternView| p.source),
            record_views(data.matches@) == progress@.records,
            data.files_scanned == progress@.files_scanned,
            error_views(data.errors@) == progress@.errors,
            data.include_capture_groups == self@.include_capture_groups,
    {
        let mut patterns: Vec<String> = Vec::new();
        let mut i: usize = 0;
        while i < self.patterns.len()
            invariant
                i <= self.patterns@.len(),
                texts(patterns@) == pattern_views(self.patterns@).take(i as int).map_values(
                    |p: PatternView| p.source,
                ),
            decreases self.patterns.len() - i,
        {
            let ghost before = patterns@;
            let s = self.patterns[i].source().clone();
            assert(pattern_views(self.patterns@)[i as int] == self.patterns@[i as int]@);
            patterns.push(s);
            assert(texts(patterns@) =~= texts(before).push(self.patterns@[i as int]@.source));
            assert(texts(patterns@) =~= pattern_views(self.patterns@).take(i + 1).map_values(
                |p: PatternView| p.source,
            ));
            i += 1;
        }
        assert(pattern_views(self.patterns@).take(i as int) =~= pattern_views(self.patterns@));
        SweepData {
            folder_scanned: self.root,
            scan_date_time,
            patterns,
            matches: progress.records,
            files_scanned: progress.files_scanned,
            errors: progress.errors,
            include_capture_groups: self.include_capture_groups,
        }
    }
}

/// The message for an import path that is not a file.
pub open spec fn missing_file_message() -> Seq<char> {
    "Choose a text file that exists."@
}

/// The message for an import of a binary file.
pub open spec fn binary_import_message() -> Seq<char> {
    "Choose a text file to import."@
}

/// Checks a file to import: the trimmed path, unless `is_file` says it is
/// not a file or it is a binary file.
pub fn check_import_path(path: &str, is_file: bool) -> (r: Result<String, String>)
    ensures
        match r {
            Ok(p) => p@ == trim_seq(path@) && is_file && !is_binary_path(trim_seq(path@)),
            Err(m) => (!is_file && m@ == missing_file_message()) || (is_file && is_binary_path(
                trim_seq(path@),
            ) && m@ == binary_import_message()),
        },
{
    let target = trim(path);
    if !is_file {
        return Err(String::from_str("Choose a text file that exists."));
    }
    if is_unsupported_binary_file(target.as_str()) {
        return Err(String::from_str("Choose a text file to import."));
    }
    Ok(target)
}

/// The message for an imported file that is not UTF-8 text.
pub open spec fn not_utf8_message() -> Seq<char> {
    "Choose a UTF-8 text file to import."@
}

/// What an import hands back for what reading the file gave.
pub fn import_result(read: FileRead) -> (r: Result<String, String>)
    ensures
        match read {
            FileRead::Text(content) => r is Ok && r->Ok_0@ == content@,
            FileRead::NotUtf8 => r is Err && r->Err_0@ == not_utf8_message(),
            FileRead::Failed(message) => r is Err && r->Err_0@ == "Could not read text file: "@
                + message@,
        },
{
    match read {
        FileRead::Text(content) => Ok(content),
        FileRead::NotUtf8 => Err(String::from_str("Choose a UTF-8 text file to import.")),
        FileRead::Failed(message) => {
            let mut m = String::from_str("Could not read text file: ");
            m.append(message.as_str());
            Err(m)
        },
    }
}

} // verus!
