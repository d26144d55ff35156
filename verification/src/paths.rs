//! File paths as text: the parts of a path that the sweep reads, which
//! files it treats as binary, and where a report may be written.

use std::path::Path;
use vstd::prelude::*;

use crate::patterns::opt_text;
use crate::text::{ascii_lower_seq, to_ascii_lowercase, trim, trim_seq};

verus! {

/// What `Path::strip_prefix(path, base)` leaves of `path`, under the path
/// rules of the platform the library is built for; `None` where `base` is not
/// a prefix of `path`.
pub uninterp spec fn path_strip_prefix(path: Seq<char>, base: Seq<char>) -> Option<Seq<char>>;

/// `Path::parent` of `path`, under the platform's path rules.
pub uninterp spec fn path_parent(path: Seq<char>) -> Option<Seq<char>>;

/// `Path::extension` of `path`, under the platform's path rules.
pub uninterp spec fn path_extension(path: Seq<char>) -> Option<Seq<char>>;

/// `Path::file_name` of `path`, under the platform's path rules.
pub uninterp spec fn path_file_name(path: Seq<char>) -> Option<Seq<char>>;

/// Whether `Path::new(a) == Path::new(b)`: the two paths have the same
/// components under the platform's path rules.
pub uninterp spec fn path_equal(a: Seq<char>, b: Seq<char>) -> bool;

/// Compares two paths with `Path`'s `==`, which compares their components.
#[verifier::external_body]
pub(crate) fn same_path(a: &str, b: &str) -> (r: bool)
    ensures
        r == path_equal(a@, b@),
{
    Path::new(a) == Path::new(b)
}

/// Calls `Path::strip_prefix`; the relative path it returns is a slice of
/// the UTF-8 text of `path`, so it is handed back as text unchanged.
#[verifier::external_body]
fn strip_path_prefix(path: &str, base: &str) -> (r: Option<String>)
    ensures
        opt_text(r) == path_strip_prefix(path@, base@),
{
    Path::new(path).strip_prefix(base).ok().map(|p| p.to_string_lossy().into_owned())
}

/// Calls `Path::parent`, handing back the parent's text.
#[verifier::external_body]
fn parent_of(path: &str) -> (r: Option<String>)
    ensures
        opt_text(r) == path_parent(path@),
{
    Path::new(path).parent().map(|p| p.to_string_lossy().into_owned())
}

/// Calls `Path::extension`, handing back the extension's text.
#[verifier::external_body]
pub(crate) fn extension_of(path: &str) -> (r: Option<String>)
    ensures
        opt_text(r) == path_extension(path@),
{
    Path::new(path).extension().map(|e| e.to_string_lossy().into_owned())
}

/// Calls `Path::file_name`, handing back the name's text.
#[verifier::external_body]
pub(crate) fn file_name_of(path: &str) -> (r: Option<String>)
    ensures
        opt_text(r) == path_file_name(path@),
{
    Path::new(path).file_name().map(|n| n.to_string_lossy().into_owned())
}

/// `path` relative to `root` where `root` is a prefix of it, else `path` itself.
pub open spec fn display_path_spec(path: Seq<char>, root: Seq<char>) -> Seq<char> {
    match path_strip_prefix(path, root) {
        Some(rel) => rel,
        None => path,
    }
}

/// The path shown for a file: relative to the scanned folder where it lies
/// inside it, else as given.
pub fn display_path(path: &str, root: &str) -> (s: String)
    ensures
        s@ == display_path_spec(path@, root@),
{
    match strip_path_prefix(path, root) {
        Some(rel) => rel,
        None => String::from_str(path),
    }
}

/// The path by which a file is compared with the report's own location:
/// its canonical form where the file system gave one, else the path as given.
pub fn comparable_path(path: &str, canonical: Option<String>) -> (s: String)
    ensures
        s@ == (match canonical {
            Some(c) => c@,
            None => path@,
        }),
{
    match canonical {
        Some(c) => c,
        None => String::from_str(path),
    }
}

/// The extensions, in lower case, of the files that a sweep never reads.
pub open spec fn binary_extensions() -> Seq<Seq<char>> {
    seq![
        "pdf"@,
        "png"@,
        "jpg"@,
        "jpeg"@,
        "gif"@,
        "webp"@,
        "bmp"@,
        "ico"@,
        "tif"@,
        "tiff"@,
        "heic"@,
        "heif"@,
        "avif"@,
        "raw"@,
        "svgz"@,
    ]
}

/// Whether a file is an image, PDF or other binary format that a sweep skips.
pub open spec fn is_binary_path(path: Seq<char>) -> bool {
    match path_extension(path) {
        Some(ext) => binary_extensions().contains(ascii_lower_seq(ext)),
        None => false,
    }
}

/// Whether `path` names a binary file that is never scanned or imported:
/// its extension, in any letter case, is one of `binary_extensions()`.
pub fn is_unsupported_binary_file(path: &str) -> (b: bool)
    ensures
        b == is_binary_path(path@),
{
    let found = extension_of(path);
    let ext = match found {
        Some(e) => e,
        None => return false,
    };
    assert(path_extension(path@) == Some(ext@));
    let lower = to_ascii_lowercase(ext.as_str());
    let names = vec![
        "pdf",
        "png",
        "jpg",
        "jpeg",
        "gif",
        "webp",
        "bmp",
        "ico",
        "tif",
        "tiff",
        "heic",
        "heif",
        "avif",
        "raw",
        "svgz",
    ];
    let ghost table = names@.map_values(|n: &str| n@);
    assert(table =~= binary_extensions());
    let mut i: usize = 0;
    while i < names.len()
        invariant
            i <= names@.len(),
            table == names@.map_values(|n: &str| n@),
            table == binary_extensions(),
            lower@ == ascii_lower_seq(ext@),
            path_extension(path@) == Some(ext@),
            forall|j: int| 0 <= j < i ==> table[j] != lower@,
        decreases names.len() - i,
    {
        let candidate = String::from_str(names[i]);
        if candidate == lower {
            assert(table[i as int] == lower@);
            assert(binary_extensions().contains(lower@));
            return true;
        }
        i += 1;
    }
    false
}

/// The message for an output path whose folder does not exist.
pub open spec fn missing_folder_message() -> Seq<char> {
    "Choose an output location inside an existing folder."@
}

/// Whether the trimmed `output_path` has a non-empty parent folder.
pub open spec fn has_named_parent(output_path: Seq<char>) -> bool {
    path_parent(trim_seq(output_path)) matches Some(p) && p.len() > 0
}

/// The folder that the report would be written into, if the path names one.
pub fn output_parent(output_path: &str) -> (r: Option<String>)
    ensures
        opt_text(r) == path_parent(trim_seq(output_path@)),
{
    let trimmed = trim(output_path);
    parent_of(trimmed.as_str())
}

/// Checks where a report is to be written: the trimmed path, unless it names
/// a parent folder and `parent_exists` says that folder is missing.
pub fn validate_output_path(output_path: &str, parent_exists: bool) -> (r: Result<String, String>)
    ensures
        match r {
            Ok(p) => p@ == trim_seq(output_path@) && (has_named_parent(output_path@)
                ==> parent_exists),
            Err(m) => m@ == missing_folder_message() && has_named_parent(output_path@)
                && !parent_exists,
        },
{
    let trimmed = trim(output_path);
    if let Some(parent) = parent_of(trimmed.as_str()) {
        if !parent.as_str().is_empty() && !parent_exists {
            return Err(String::from_str("Choose an output location inside an existing folder."));
        }
    }
    Ok(trimmed)
}

} // verus!
