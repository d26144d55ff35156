//! Regular-expression patterns: compiling the user's patterns and running
//! them over one line of text.

use regex::{Regex, RegexBuilder};
use vstd::prelude::*;
use vstd::utf8::{decode_utf8, encode_utf8};

use crate::text::{trim, trim_seq};

verus! {

#[verifier::external_type_specification]
#[verifier::external_body]
pub struct ExRegex(Regex);

/// The error text with which `RegexBuilder::new(pattern)`, with case-insensitive
/// matching set to `ignore_case`, refuses to build; `None` where it builds.
pub uninterp spec fn regex_compile_error(pattern: Seq<char>, ignore_case: bool) -> Option<Seq<char>>;

/// The names of the capture groups of the regex built from `pattern`, group 0 first.
pub uninterp spec fn regex_capture_names(pattern: Seq<char>, ignore_case: bool) -> Seq<Option<Seq<char>>>;

/// The byte spans, in order, of the successive non-overlapping matches that
/// the regex built from `pattern` finds in `haystack`.
pub uninterp spec fn regex_find_all(pattern: Seq<char>, ignore_case: bool, haystack: Seq<char>) -> Seq<(usize, usize)>;

/// For each successive match of the regex built from `pattern` in
/// `haystack`, the byte spans of its capture groups, group 0 first, `None`
/// for a group that took no part in the match.
pub uninterp spec fn regex_captures_all(pattern: Seq<char>, ignore_case: bool, haystack: Seq<char>) -> Seq<Seq<Option<(usize, usize)>>>;

/// The text that the bytes `start..end` of the UTF-8 encoding of `line` spell.
pub open spec fn byte_span_text(line: Seq<char>, start: usize, end: usize) -> Seq<char> {
    decode_utf8(encode_utf8(line).subrange(start as int, end as int))
}

/// One match of a regex in a line: its byte offsets and the matched text.
pub struct MatchSpan {
    pub start: usize,
    pub end: usize,
    pub text: String,
}

impl MatchSpan {
    /// The byte offsets of the span.
    pub open spec fn key(self) -> (usize, usize) {
        (self.start, self.end)
    }

    /// The span lies in `line`, ends before the largest offset, and `text`
    /// is what it covers.
    pub open spec fn lies_in(self, line: Seq<char>) -> bool {
        &&& self.start <= self.end
        &&& self.end <= encode_utf8(line).len()
        &&& self.end < usize::MAX
        &&& self.text@ == byte_span_text(line, self.start, self.end)
    }
}

/// The byte offsets of an optional span.
pub open spec fn opt_span_key(m: Option<MatchSpan>) -> Option<(usize, usize)> {
    match m {
        Some(s) => Some(s.key()),
        None => None,
    }
}

/// The characters of an optional string.
pub open spec fn opt_text(s: Option<String>) -> Option<Seq<char>> {
    match s {
        Some(t) => Some(t@),
        None => None,
    }
}

/// A pattern as the user wrote it, trimmed, with the regex built from it.
///
/// Only `compile_pattern` builds a value of this type, and it builds `regex`
/// from `source` with `ignore_case`; the trusted items below rest on that.
pub struct CompiledPattern {
    source: String,
    ignore_case: bool,
    regex: Regex,
}

/// The pattern text and whether it matches without regard to case.
pub struct PatternView {
    pub source: Seq<char>,
    pub ignore_case: bool,
}

impl View for CompiledPattern {
    type V = PatternView;

    closed spec fn view(&self) -> PatternView {
        PatternView { source: self.source@, ignore_case: self.ignore_case }
    }
}

impl CompiledPattern {
    /// The trimmed pattern text.
    pub fn source(&self) -> (s: &String)
        ensures
            s@ == self@.source,
    {
        &self.source
    }
}

/// Builds the regex for `pattern`.
///
/// Calls `RegexBuilder::new(pattern).case_insensitive(ignore_case).build()`
/// and turns a refusal into its `Display` text. The contract claims that the
/// outcome is a function of `pattern` and `ignore_case` alone.
#[verifier::external_body]
fn build_regex(pattern: &str, ignore_case: bool) -> (r: Result<Regex, String>)
    ensures
        match r {
            Ok(_) => regex_compile_error(pattern@, ignore_case) is None,
            Err(msg) => regex_compile_error(pattern@, ignore_case) == Some(msg@),
        },
{
    RegexBuilder::new(pattern).case_insensitive(ignore_case).build().map_err(|e| e.to_string())
}

/// The names of the capture groups of `pattern`'s regex.
///
/// Calls `Regex::capture_names`, which yields one entry per group, group 0
/// first. The contract claims that the names are a function of the pattern
/// text and case flag that the regex was built from.
#[verifier::external_body]
pub(crate) fn capture_names(pattern: &CompiledPattern) -> (r: Vec<Option<String>>)
    ensures
        r@.map_values(|n: Option<String>| opt_text(n)) == regex_capture_names(
            pattern@.source,
            pattern@.ignore_case,
        ),
{
    let mut out = Vec::new();
    for name in pattern.regex.capture_names() {
        out.push(name.map(|n| n.to_string()));
    }
    out
}

/// The successive matches of `pattern` in `line`.
///
/// Calls `Regex::find_iter`. Its documentation promises `start <= end`, byte
/// offsets into the haystack, and `as_str` as the text between them; a
/// haystack holds at most `isize::MAX` bytes, so `end < usize::MAX`.
#[verifier::external_body]
pub(crate) fn find_all(pattern: &CompiledPattern, line: &str) -> (r: Vec<MatchSpan>)
    ensures
        r@.map_values(|m: MatchSpan| m.key()) == regex_find_all(
            pattern@.source,
            pattern@.ignore_case,
            line@,
        ),
        forall|i: int| 0 <= i < r@.len() ==> (#[trigger] r@[i]).lies_in(line@),
{
    let mut out = Vec::new();
    for m in pattern.regex.find_iter(line) {
        out.push(MatchSpan { start: m.start(), end: m.end(), text: m.as_str().to_string() });
    }
    out
}

/// The capture groups of each successive match of `pattern` in `line`.
///
/// Calls `Regex::captures_iter` and `Captures::iter`. The documentation
/// promises that group 0, the whole match, is always present, the same facts
/// about each span as for `find_iter`, and that `captures_iter` "is the same
/// as `find_iter`" but for the groups: its matches, by group 0, are those of
/// `find_iter`, in order.
#[verifier::external_body]
pub(crate) fn captures_all(pattern: &CompiledPattern, line: &str) -> (r: Vec<Vec<Option<MatchSpan>>>)
    ensures
        r@.map_values(|c: Vec<Option<MatchSpan>>| c@.map_values(|m: Option<MatchSpan>| opt_span_key(m)))
            == regex_captures_all(pattern@.source, pattern@.ignore_case, line@),
        forall|i: int, j: int|
            0 <= i < r@.len() && 0 <= j < r@[i]@.len() && (#[trigger] r@[i]@[j]) is Some
                ==> r@[i]@[j]->0.lies_in(line@),
        r@.len() == regex_find_all(pattern@.source, pattern@.ignore_case, line@).len(),
        forall|i: int|
            0 <= i < r@.len() ==> (#[trigger] r@[i])@.len() > 0 && opt_span_key(r@[i]@[0])
                == Some(regex_find_all(pattern@.source, pattern@.ignore_case, line@)[i]),
{
    let mut out = Vec::new();
    for caps in pattern.regex.captures_iter(line) {
        let mut groups = Vec::new();
        for g in caps.iter() {
            groups.push(g.map(|m| MatchSpan { start: m.start(), end: m.end(), text: m.as_str().to_string() }));
        }
        out.push(groups);
    }
    out
}

/// The trimmed, non-empty entries of `patterns`, in order.
pub open spec fn pattern_sources(patterns: Seq<Seq<char>>) -> Seq<Seq<char>>
    decreases patterns.len(),
{
    if patterns.len() == 0 {
        seq![]
    } else {
        let rest = pattern_sources(patterns.drop_last());
        let t = trim_seq(patterns.last());
        if t.len() == 0 {
            rest
        } else {
            rest.push(t)
        }
    }
}

/// The error message for a pattern that does not build.
pub open spec fn invalid_regex_message(source: Seq<char>, error: Seq<char>) -> Seq<char> {
    "Invalid regex \""@ + source + "\": "@ + error
}

/// The first of `sources` that does not build, with its error text.
pub open spec fn first_regex_error(sources: Seq<Seq<char>>, ignore_case: bool) -> Option<Seq<char>>
    decreases sources.len(),
{
    if sources.len() == 0 {
        None
    } else {
        match first_regex_error(sources.drop_last(), ignore_case) {
            Some(m) => Some(m),
            None => match regex_compile_error(sources.last(), ignore_case) {
                Some(e) => Some(invalid_regex_message(sources.last(), e)),
                None => None,
            },
        }
    }
}

/// The views of a sequence of compiled patterns.
pub open spec fn pattern_views(ps: Seq<CompiledPattern>) -> Seq<PatternView> {
    ps.map_values(|p: CompiledPattern| p@)
}

/// Compiles one trimmed pattern.
fn compile_pattern(source: String, ignore_case: bool) -> (r: Result<CompiledPattern, String>)
    ensures
        match r {
            Ok(p) => regex_compile_error(source@, ignore_case) is None && p@ == (PatternView {
                source: source@,
                ignore_case,
            }),
            Err(m) => regex_compile_error(source@, ignore_case) matches Some(e) && m@
                == invalid_regex_message(source@, e),
        },
{
    match build_regex(source.as_str(), ignore_case) {
        Ok(regex) => Ok(CompiledPattern { source, ignore_case, regex }),
        Err(error) => {
            let mut msg = String::from_str("Invalid regex \"");
            msg.append(source.as_str());
            msg.append("\": ");
            msg.append(error.as_str());
            Err(msg)
        },
    }
}

/// Compiles each non-blank pattern, trimmed, in order.
///
/// Fails with the message for the first pattern that does not build.
pub fn compile_patterns(patterns: &[String], ignore_case: bool) -> (r: Result<
    Vec<CompiledPattern>,
    String,
>)
    ensures
        ({
            let sources = pattern_sources(patterns@.map_values(|p: String| p@));
            match r {
                Ok(v) => first_regex_error(sources, ignore_case) is None && pattern_views(v@)
                    == sources.map_values(
                    |s: Seq<char>| PatternView { source: s, ignore_case },
                ),
                Err(m) => first_regex_error(sources, ignore_case) == Some(m@),
            }
        }),
{
    let ghost views = patterns@.map_values(|p: String| p@);
    let mut out: Vec<CompiledPattern> = Vec::new();
    let mut i: usize = 0;
    while i < patterns.len()
        invariant
            i <= patterns@.len(),
            views == patterns@.map_values(|p: String| p@),
            first_regex_error(pattern_sources(views.take(i as int)), ignore_case) is None,
            pattern_views(out@) == pattern_sources(views.take(i as int)).map_values(
                |s: Seq<char>| PatternView { source: s, ignore_case },
            ),
        decreases patterns.len() - i,
    {
        assert(views.take(i + 1).drop_last() =~= views.take(i as int));
        let ghost prev = pattern_sources(views.take(i as int));
        let t = trim(patterns[i].as_str());
        assert(views.take(i + 1).last() == patterns@[i as int]@);
        if !t.as_str().is_empty() {
            assert(pattern_sources(views.take(i + 1)) == prev.push(t@));
            assert(prev.push(t@).drop_last() =~= prev);
            match compile_pattern(t, ignore_case) {
                Ok(p) => {
                    let ghost before = out@;
                    let ghost pv = p@;
                    out.push(p);
                    assert(pattern_views(out@) =~= pattern_views(before).push(pv));
                    assert(pattern_views(out@) =~= pattern_sources(views.take(i + 1)).map_values(
                        |s: Seq<char>| PatternView { source: s, ignore_case },
                    ));
                },
                Err(m) => {
                    proof {
                        lemma_first_error_prefix(views, i as int + 1, ignore_case);
                    }
                    return Err(m);
                },
            }
        } else {
            assert(pattern_sources(views.take(i + 1)) == prev);
        }
        i += 1;
    }
    assert(views.take(i as int) =~= views);
    Ok(out)
}

/// Once a prefix of the patterns holds an error, the whole list fails with it.
proof fn lemma_first_error_prefix(views: Seq<Seq<char>>, k: int, ignore_case: bool)
    requires
        0 <= k <= views.len(),
        first_regex_error(pattern_sources(views.take(k)), ignore_case) is Some,
    ensures
        first_regex_error(pattern_sources(views), ignore_case) == first_regex_error(
            pattern_sources(views.take(k)),
            ignore_case,
        ),
    decreases views.len() - k,
{
    if k < views.len() {
        let prev = pattern_sources(views.take(k));
        assert(views.take(k + 1).drop_last() =~= views.take(k));
        let t = trim_seq(views.take(k + 1).last());
        if t.len() != 0 {
            assert(prev.push(t).drop_last() =~= prev);
        }
        lemma_first_error_prefix(views, k + 1, ignore_case);
    } else {
        assert(views.take(k) =~= views);
    }
}

} // verus!
