//! The optional file glob that limits which files a sweep reads; a leading
//! `!` turns it into a glob of files to leave out.

use globset::{Glob, GlobSet};
use vstd::prelude::*;

use crate::paths::{file_name_of, path_file_name, path_strip_prefix};
use crate::text::{chars_of, string_from_chars, trim, trim_seq};

verus! {

#[verifier::external_type_specification]
#[verifier::external_body]
pub struct ExGlob(Glob);

#[verifier::external_type_specification]
#[verifier::external_body]
pub struct ExGlobSet(GlobSet);

/// The error text with which `Glob::new(pattern)` refuses `pattern`; `None`
/// where it accepts it.
pub uninterp spec fn glob_parse_error(pattern: Seq<char>) -> Option<Seq<char>>;

/// The error text with which `GlobSet::new` refuses the set that holds
/// `Glob::new(pattern)` alone, where building the glob's regex fails; `None`
/// where the set builds.
pub uninterp spec fn glob_set_error(pattern: Seq<char>) -> Option<Seq<char>>;

/// Whether the set built by `GlobSet::new` from `Glob::new(pattern)` alone
/// matches `path`.
pub uninterp spec fn glob_matches(pattern: Seq<char>, path: Seq<char>) -> bool;

/// Calls `Glob::new`, turning a refusal into its `Display` text.
#[verifier::external_body]
fn parse_glob(pattern: &str) -> (r: Result<Glob, String>)
    ensures
        match r {
            Ok(_) => glob_parse_error(pattern@) is None,
            Err(msg) => glob_parse_error(pattern@) == Some(msg@),
        },
{
    Glob::new(pattern).map_err(|e| e.to_string())
}

/// A parsed glob with the text it was parsed from.
///
/// Only `compile_glob` builds a value of this type, from `Glob::new(pattern)`;
/// `build_glob_set` rests on that.
struct ParsedGlob {
    pattern: String,
    glob: Glob,
}

/// Calls `GlobSet::new` with the one parsed glob, turning a refusal (its
/// regex does not build, for instance because it nests too deeply or is too
/// large) into its `Display` text. The call returns the error rather than
/// panicking.
#[verifier::external_body]
fn build_glob_set(parsed: &ParsedGlob) -> (r: Result<GlobSet, String>)
    ensures
        match r {
            Ok(_) => glob_set_error(parsed.pattern@) is None,
            Err(msg) => glob_set_error(parsed.pattern@) == Some(msg@),
        },
{
    GlobSet::new([&parsed.glob]).map_err(|e| e.to_string())
}

/// A compiled file glob.
///
/// Only `compile_glob` builds a value of this type, and it builds `set` by
/// `GlobSet::new` from `Glob::new(pattern)` alone; `glob_is_match` rests on
/// that.
pub struct FileGlob {
    pattern: String,
    exclude: bool,
    set: GlobSet,
}

/// A file glob as plain values: the glob without its `!`, and whether it
/// names the files to leave out.
pub struct FileGlobView {
    pub pattern: Seq<char>,
    pub exclude: bool,
}

impl View for FileGlob {
    type V = FileGlobView;

    closed spec fn view(&self) -> FileGlobView {
        FileGlobView { pattern: self.pattern@, exclude: self.exclude }
    }
}

/// Calls `GlobSet::is_match` with `path`: whether the one glob matches it.
#[verifier::external_body]
fn glob_is_match(glob: &FileGlob, path: &str) -> (r: bool)
    ensures
        r == glob_matches(glob@.pattern, path@),
{
    glob.set.is_match(path)
}

/// `s` without its leading `!` characters.
pub open spec fn trim_bangs(s: Seq<char>) -> Seq<char>
    decreases s.len(),
{
    if s.len() > 0 && s[0] == '!' {
        trim_bangs(s.drop_first())
    } else {
        s
    }
}

/// The error message for a glob that does not parse.
pub open spec fn invalid_glob_message(glob: Seq<char>, error: Seq<char>) -> Seq<char> {
    "Invalid file glob \""@ + glob + "\": "@ + error
}

/// What `compile_glob` makes of the optional glob text: `Ok(None)` when it
/// is absent or blank; else the glob, trimmed, with every leading `!`
/// removed and `exclude` set when there was one, or the error with which
/// the glob does not parse or its matcher does not build.
pub open spec fn compiled_glob(glob: Option<Seq<char>>) -> Result<Option<FileGlobView>, Seq<char>> {
    match glob {
        None => Ok(None),
        Some(g) => {
            let t = trim_seq(g);
            if t.len() == 0 {
                Ok(None)
            } else {
                let pattern = trim_bangs(t);
                match glob_parse_error(pattern) {
                    Some(e) => Err(invalid_glob_message(t, e)),
                    None => match glob_set_error(pattern) {
                        Some(e) => Err(invalid_glob_message(t, e)),
                        None => Ok(Some(FileGlobView { pattern, exclude: t[0] == '!' })),
                    },
                }
            }
        },
    }
}

/// The view of an optional compiled glob.
pub open spec fn opt_glob_view(g: Option<FileGlob>) -> Option<FileGlobView> {
    match g {
        Some(f) => Some(f@),
        None => None,
    }
}

/// The message for a glob `glob` refused with `error`.
fn invalid_glob(glob: &str, error: &str) -> (m: String)
    ensures
        m@ == invalid_glob_message(glob@, error@),
{
    let mut msg = String::from_str("Invalid file glob \"");
    msg.append(glob);
    msg.append("\": ");
    msg.append(error);
    msg
}

/// Compiles the optional file glob.
pub fn compile_glob(glob: Option<&str>) -> (r: Result<Option<FileGlob>, String>)
    ensures
        compiled_glob(
            match glob {
                Some(g) => Some(g@),
                None => None,
            },
        ) == (match r {
            Ok(g) => Ok(opt_glob_view(g)),
            Err(m) => Err(m@),
        }),
{
    let text = match glob {
        Some(g) => trim(g),
        None => return Ok(None),
    };
    if text.as_str().is_empty() {
        return Ok(None);
    }
    let chars = chars_of(text.as_str());
    let exclude = chars[0] == '!';
    let mut k: usize = 0;
    assert(chars@.subrange(0, chars@.len() as int) =~= chars@);
    while k < chars.len() && chars[k] == '!'
        invariant
            k <= chars@.len(),
            trim_bangs(chars@) == trim_bangs(chars@.subrange(k as int, chars@.len() as int)),
        decreases chars.len() - k,
    {
        assert(chars@.subrange(k as int, chars@.len() as int).drop_first() =~= chars@.subrange(
            k + 1,
            chars@.len() as int,
        ));
        k += 1;
    }
    let pattern = string_from_chars(&chars, k, chars.len());
    assert(trim_bangs(chars@) == pattern@);
    match parse_glob(pattern.as_str()) {
        Ok(glob) => {
            let parsed = ParsedGlob { pattern, glob };
            match build_glob_set(&parsed) {
                Ok(set) => Ok(Some(FileGlob { pattern: parsed.pattern, exclude, set })),
                Err(error) => Err(invalid_glob(text.as_str(), error.as_str())),
            }
        },
        Err(error) => Err(invalid_glob(text.as_str(), error.as_str())),
    }
}

/// Whether a file passes the glob: with no glob every file does; else the
/// glob is tried on the path relative to `root` and on the file's name, and
/// an excluding glob lets through exactly the files that it does not match.
pub open spec fn glob_admits(path: Seq<char>, root: Seq<char>, glob: Option<FileGlobView>) -> bool {
    match glob {
        None => true,
        Some(g) => {
            let rel = match path_strip_prefix(path, root) {
                Some(r) => r,
                None => path,
            };
            let hit = glob_matches(g.pattern, rel) || (match path_file_name(rel) {
                Some(name) => glob_matches(g.pattern, name),
                None => false,
            });
            if g.exclude {
                !hit
            } else {
                hit
            }
        },
    }
}

/// Whether the file `path`, found under `root`, passes the file glob.
pub fn matches_glob(path: &str, root: &str, glob: Option<&FileGlob>) -> (b: bool)
    ensures
        b == glob_admits(
            path@,
            root@,
            match glob {
                Some(g) => Some(g@),
                None => None,
            },
        ),
{
    let g = match glob {
        Some(g) => g,
        None => return true,
    };
    let rel = crate::paths::display_path(path, root);
    let hit = glob_is_match(g, rel.as_str()) || match file_name_of(rel.as_str()) {
        Some(name) => glob_is_match(g, name.as_str()),
        None => false,
    };
    if g.exclude {
        !hit
    } else {
        hit
    }
}

} // verus!
