//! Properties that hold of the library as a whole, across its functions.

use vstd::prelude::*;

use crate::globs::{glob_admits, glob_matches, FileGlobView};
use crate::paths::{is_binary_path, path_equal, path_file_name, path_strip_prefix};
use crate::patterns::{first_regex_error, pattern_sources, regex_compile_error, regex_find_all};
use crate::report::script_escape_char;
use crate::records::{find_records, match_record};
use crate::sweep::{is_read, planned_sweep, SweepPlanView, SweepRequest};
use crate::text::texts;
use vstd::utf8::{decode_utf8, encode_utf8};
use crate::patterns::{regex_capture_names, regex_captures_all, PatternView};
use crate::records::{
    capture_records, content_records, line_records, pattern_line_records, MatchRecordView,
};
use crate::report::{
    html_escape_char, html_escape_seq, report_body_seq, report_seq, report_tail_seq,
    script_data_seq, script_escape_seq,
};
use crate::template::{FILE_TYPES_DATA_OPEN, PATTERNS_DATA_OPEN, ROWS_DATA_OPEN, SCRIPT_CLOSE, SCRIPT_GAP};
use crate::summary::{
    file_type_label, lemma_sorted_no_duplicates, paths_with_type, type_counts_ok, type_keys,
};

verus! {

broadcast use vstd::set::group_set_axioms;

/// HTML-escaped text holds no `<`, `>`, `"` or `'`: it cannot open a tag or
/// close an attribute.
pub proof fn lemma_html_escape_is_inert(s: Seq<char>)
    ensures
        !html_escape_seq(s).contains('<'),
        !html_escape_seq(s).contains('>'),
        !html_escape_seq(s).contains('"'),
        !html_escape_seq(s).contains('\''),
    decreases s.len(),
{
    if s.len() > 0 {
        lemma_html_escape_is_inert(s.drop_last());
        let prev = html_escape_seq(s.drop_last());
        let out = html_escape_seq(s);
        let tail = crate::report::html_escape_char(s.last());
        assert(out == prev + tail);
        assert forall|c: char| c == '<' || c == '>' || c == '"' || c == '\'' implies !out.contains(
            c,
        ) by {
            if out.contains(c) {
                let i = choose|i: int| 0 <= i < out.len() && out[i] == c;
                if i < prev.len() {
                    assert(prev[i] == c);
                } else {
                    assert(tail[i - prev.len()] == c);
                }
            }
        }
    }
}

/// JSON escaped for a script element holds no `<`, `>` or `&`, so it cannot
/// end the script element early.
pub proof fn lemma_script_escape_is_inert(s: Seq<char>)
    ensures
        !script_escape_seq(s).contains('<'),
        !script_escape_seq(s).contains('>'),
        !script_escape_seq(s).contains('&'),
    decreases s.len(),
{
    if s.len() > 0 {
        lemma_script_escape_is_inert(s.drop_last());
        let prev = script_escape_seq(s.drop_last());
        let out = script_escape_seq(s);
        let tail = crate::report::script_escape_char(s.last());
        assert(out == prev + tail);
        assert forall|c: char| c == '<' || c == '>' || c == '&' implies !out.contains(c) by {
            if out.contains(c) {
                let i = choose|i: int| 0 <= i < out.len() && out[i] == c;
                if i < prev.len() {
                    assert(prev[i] == c);
                } else {
                    assert(tail[i - prev.len()] == c);
                }
            }
        }
    }
}

/// A glob written with a leading `!` admits exactly the files that the same
/// glob without it does not; with no glob every file is admitted.
pub proof fn lemma_exclude_glob_is_complement(path: Seq<char>, root: Seq<char>, pattern: Seq<char>)
    ensures
        glob_admits(path, root, Some(FileGlobView { pattern, exclude: true })) == !glob_admits(
            path,
            root,
            Some(FileGlobView { pattern, exclude: false }),
        ),
        glob_admits(path, root, None),
{
}

/// Each record of one line names the file, a pattern of the sweep and that
/// line (counted from 1); without capture groups asked for, it carries none.
pub proof fn lemma_line_records_shape(
    path: Seq<char>,
    patterns: Seq<PatternView>,
    line_index: int,
    line: Seq<char>,
    include_capture_groups: bool,
)
    ensures
        forall|i: int|
            0 <= i < line_records(path, patterns, line_index, line, include_capture_groups).len()
                ==> {
                let r = #[trigger] line_records(
                    path,
                    patterns,
                    line_index,
                    line,
                    include_capture_groups,
                )[i];
                &&& r.path == path
                &&& r.line == line_index + 1
                &&& patterns.map_values(|p: PatternView| p.source).contains(r.pattern)
                &&& !include_capture_groups ==> r.capture_groups.len() == 0
            },
    decreases patterns.len(),
{
    if patterns.len() > 0 {
        let prefix = patterns.drop_last();
        let p = patterns.last();
        lemma_line_records_shape(path, prefix, line_index, line, include_capture_groups);
        let before = line_records(path, prefix, line_index, line, include_capture_groups);
        let added = pattern_line_records(path, p, line_index, line, include_capture_groups);
        let all = line_records(path, patterns, line_index, line, include_capture_groups);
        assert(all == before + added);
        let sources = patterns.map_values(|q: PatternView| q.source);
        assert(sources[patterns.len() - 1] == p.source);
        if include_capture_groups {
            lemma_capture_records_shape(
                path,
                p.source,
                regex_capture_names(p.source, p.ignore_case),
                line_index,
                line,
                regex_captures_all(p.source, p.ignore_case, line),
            );
        }
        assert forall|i: int| 0 <= i < all.len() implies {
            let r = #[trigger] all[i];
            &&& r.path == path
            &&& r.line == line_index + 1
            &&& sources.contains(r.pattern)
            &&& !include_capture_groups ==> r.capture_groups.len() == 0
        } by {
            if i < before.len() {
                assert(all[i] == before[i]);
                let q = prefix.map_values(|q: PatternView| q.source);
                assert(q.contains(before[i].pattern));
                let k = choose|k: int| 0 <= k < q.len() && q[k] == before[i].pattern;
                assert(sources[k] == q[k]);
            } else {
                assert(all[i] == added[i - before.len()]);
                assert(added[i - before.len()].pattern == p.source);
            }
        }
    }
}

/// Each record made from capture groups names the file, the pattern and the
/// line.
proof fn lemma_capture_records_shape(
    path: Seq<char>,
    pattern: Seq<char>,
    names: Seq<Option<Seq<char>>>,
    line_index: int,
    line: Seq<char>,
    caps: Seq<Seq<Option<(usize, usize)>>>,
)
    ensures
        forall|i: int|
            0 <= i < capture_records(path, pattern, names, line_index, line, caps).len() ==> {
                let r = #[trigger] capture_records(path, pattern, names, line_index, line, caps)[i];
                &&& r.path == path
                &&& r.line == line_index + 1
                &&& r.pattern == pattern
            },
    decreases caps.len(),
{
    if caps.len() > 0 {
        lemma_capture_records_shape(path, pattern, names, line_index, line, caps.drop_last());
        let before = capture_records(path, pattern, names, line_index, line, caps.drop_last());
        let all = capture_records(path, pattern, names, line_index, line, caps);
        assert forall|i: int| 0 <= i < all.len() implies {
            let r = #[trigger] all[i];
            &&& r.path == path
            &&& r.line == line_index + 1
            &&& r.pattern == pattern
        } by {
            if i < before.len() {
                assert(all[i] == before[i]);
            }
        }
    }
}

/// The records of a file name it and one of the sweep's patterns, lie on
/// one of its lines, come in the order of their lines, and carry no capture
/// groups unless they were asked for.
pub proof fn lemma_content_records_shape(
    path: Seq<char>,
    lines: Seq<Seq<char>>,
    patterns: Seq<PatternView>,
    include_capture_groups: bool,
)
    ensures
        ({
            let rs = content_records(path, lines, patterns, include_capture_groups);
            &&& forall|i: int|
                0 <= i < rs.len() ==> {
                    let r = #[trigger] rs[i];
                    &&& r.path == path
                    &&& 1 <= r.line <= lines.len()
                    &&& patterns.map_values(|p: PatternView| p.source).contains(r.pattern)
                    &&& !include_capture_groups ==> r.capture_groups.len() == 0
                }
            &&& forall|i: int, j: int| 0 <= i < j < rs.len() ==> (#[trigger] rs[i]).line <= (#[trigger] rs[j]).line
        }),
    decreases lines.len(),
{
    if lines.len() > 0 {
        let prefix = lines.drop_last();
        lemma_content_records_shape(path, prefix, patterns, include_capture_groups);
        lemma_line_records_shape(path, patterns, lines.len() - 1, lines.last(), include_capture_groups);
        let before = content_records(path, prefix, patterns, include_capture_groups);
        let added = line_records(path, patterns, lines.len() - 1, lines.last(), include_capture_groups);
        let rs = content_records(path, lines, patterns, include_capture_groups);
        assert(rs == before + added);
        assert forall|i: int| 0 <= i < rs.len() implies {
            let r = #[trigger] rs[i];
            &&& r.path == path
            &&& 1 <= r.line <= lines.len()
            &&& patterns.map_values(|p: PatternView| p.source).contains(r.pattern)
            &&& !include_capture_groups ==> r.capture_groups.len() == 0
        } by {
            if i < before.len() {
                assert(rs[i] == before[i]);
            } else {
                assert(rs[i] == added[i - before.len()]);
            }
        }
        assert forall|i: int, j: int| 0 <= i < j < rs.len() implies (#[trigger] rs[i]).line <= (
        #[trigger] rs[j]).line by {
            if j < before.len() {
                assert(rs[i] == before[i]);
                assert(rs[j] == before[j]);
            } else if i < before.len() {
                assert(rs[i] == before[i]);
                assert(rs[j] == added[j - before.len()]);
            } else {
                assert(rs[i] == added[i - before.len()]);
                assert(rs[j] == added[j - before.len()]);
            }
        }
    }
}

/// The sum of the counts in a table of file types.
pub open spec fn total_count(v: Seq<(Seq<char>, usize)>) -> int
    decreases v.len(),
{
    if v.len() == 0 {
        0
    } else {
        total_count(v.drop_last()) + v.last().1
    }
}

/// The sum of the number of paths of each of `keys`.
pub open spec fn sum_type_sizes(paths: Set<Seq<char>>, keys: Seq<Seq<char>>) -> int
    decreases keys.len(),
{
    if keys.len() == 0 {
        0
    } else {
        sum_type_sizes(paths, keys.drop_last()) + paths_with_type(paths, keys.last()).len()
    }
}

/// How many of `keys` equal `label`.
pub open spec fn occurrences(keys: Seq<Seq<char>>, label: Seq<char>) -> int
    decreases keys.len(),
{
    if keys.len() == 0 {
        0
    } else {
        occurrences(keys.drop_last(), label) + if keys.last() == label {
            1int
        } else {
            0int
        }
    }
}

proof fn lemma_occurrences_once(keys: Seq<Seq<char>>, label: Seq<char>)
    requires
        keys.no_duplicates(),
        keys.contains(label),
    ensures
        occurrences(keys, label) == 1,
    decreases keys.len(),
{
    let rest = keys.drop_last();
    if keys.last() == label {
        assert(!rest.contains(label)) by {
            if rest.contains(label) {
                let i = choose|i: int| 0 <= i < rest.len() && rest[i] == label;
                assert(keys[i] == keys[keys.len() - 1]);
            }
        }
        lemma_occurrences_none(rest, label);
    } else {
        let i = choose|i: int| 0 <= i < keys.len() && keys[i] == label;
        assert(rest[i] == label);
        lemma_occurrences_once(rest, label);
    }
}

proof fn lemma_occurrences_none(keys: Seq<Seq<char>>, label: Seq<char>)
    requires
        !keys.contains(label),
    ensures
        occurrences(keys, label) == 0,
    decreases keys.len(),
{
    if keys.len() > 0 {
        assert(keys[keys.len() - 1] != label);
        assert(!keys.drop_last().contains(label)) by {
            if keys.drop_last().contains(label) {
                let i = choose|i: int| 0 <= i < keys.drop_last().len() && keys.drop_last()[i] == label;
                assert(keys[i] == label);
            }
        }
        lemma_occurrences_none(keys.drop_last(), label);
    }
}

proof fn lemma_sum_sizes_empty(keys: Seq<Seq<char>>)
    ensures
        sum_type_sizes(Set::empty(), keys) == 0,
    decreases keys.len(),
{
    if keys.len() > 0 {
        assert(paths_with_type(Set::empty(), keys.last()) =~= Set::empty());
        lemma_sum_sizes_empty(keys.drop_last());
    }
}

proof fn lemma_sum_sizes_remove(paths: Set<Seq<char>>, x: Seq<char>, keys: Seq<Seq<char>>)
    requires
        paths.finite(),
        paths.contains(x),
    ensures
        sum_type_sizes(paths, keys) == sum_type_sizes(paths.remove(x), keys) + occurrences(
            keys,
            file_type_label(x),
        ),
    decreases keys.len(),
{
    if keys.len() > 0 {
        lemma_sum_sizes_remove(paths, x, keys.drop_last());
        let k = keys.last();
        let rest = paths.remove(x);
        if file_type_label(x) == k {
            assert(paths_with_type(paths, k) =~= paths_with_type(rest, k).insert(x));
            assert(!paths_with_type(rest, k).contains(x));
        } else {
            assert(paths_with_type(paths, k) =~= paths_with_type(rest, k));
        }
    }
}

proof fn lemma_sum_sizes_total(paths: Set<Seq<char>>, keys: Seq<Seq<char>>)
    requires
        paths.finite(),
        keys.no_duplicates(),
        forall|p: Seq<char>| paths.contains(p) ==> keys.contains(file_type_label(p)),
    ensures
        sum_type_sizes(paths, keys) == paths.len(),
    decreases paths.len(),
{
    if paths.len() == 0 {
        assert(paths =~= Set::empty()) by {
            if exists|p: Seq<char>| paths.contains(p) {
                let p = choose|p: Seq<char>| paths.contains(p);
                assert(paths.remove(p).len() < paths.len());
            }
        }
        lemma_sum_sizes_empty(keys);
    } else {
        let x = paths.choose();
        assert(paths.contains(x)) by {
            if !paths.contains(x) {
                assert(paths =~= Set::empty()) by {
                    assert(!(exists|p: Seq<char>| paths.contains(p)));
                }
            }
        }
        lemma_sum_sizes_remove(paths, x, keys);
        lemma_sum_sizes_total(paths.remove(x), keys);
        lemma_occurrences_once(keys, file_type_label(x));
    }
}

proof fn lemma_total_is_sum(paths: Set<Seq<char>>, v: Seq<(Seq<char>, usize)>)
    requires
        forall|j: int|
            0 <= j < v.len() ==> (#[trigger] v[j]).1 == paths_with_type(paths, v[j].0).len(),
    ensures
        total_count(v) == sum_type_sizes(paths, type_keys(v)),
    decreases v.len(),
{
    if v.len() > 0 {
        let rest = v.drop_last();
        assert(type_keys(rest) =~= type_keys(v).drop_last());
        assert forall|j: int| 0 <= j < rest.len() implies (#[trigger] rest[j]).1 == paths_with_type(
            paths,
            rest[j].0,
        ).len() by {
            assert(rest[j] == v[j]);
        }
        lemma_total_is_sum(paths, rest);
        assert(v[v.len() - 1].1 == paths_with_type(paths, v[v.len() - 1].0).len());
    }
}

/// The counts of a table of file types add up to the number of files.
pub proof fn lemma_type_counts_add_up(paths: Set<Seq<char>>, v: Seq<(Seq<char>, usize)>)
    requires
        paths.finite(),
        type_counts_ok(paths, v),
    ensures
        total_count(v) == paths.len(),
{
    lemma_total_is_sum(paths, v);
    lemma_sorted_no_duplicates(type_keys(v));
    assert forall|p: Seq<char>| paths.contains(p) implies type_keys(v).contains(file_type_label(p)) by {
        assert(paths.map(|q: Seq<char>| file_type_label(q)).contains(file_type_label(p)));
        assert(type_keys(v).to_set().contains(file_type_label(p)));
    }
    lemma_sum_sizes_total(paths, type_keys(v));
}

/// No more files hold a match than there are matches.
pub proof fn lemma_affected_at_most_matches(records: Seq<MatchRecordView>)
    ensures
        crate::summary::record_paths(records).len() <= records.len(),
{
    records.map_values(|r: MatchRecordView| r.path).lemma_cardinality_of_set();
}

/// Reads HTML text back: each of the character references that `html_escape`
/// writes becomes its character again; every other character stays.
pub open spec fn html_unescape_seq(t: Seq<char>) -> Seq<char>
    decreases t.len(),
{
    if t.len() == 0 {
        seq![]
    } else if t.len() >= 5 && t.take(5) == seq!['&', 'a', 'm', 'p', ';'] {
        seq!['&'] + html_unescape_seq(t.skip(5))
    } else if t.len() >= 4 && t.take(4) == seq!['&', 'l', 't', ';'] {
        seq!['<'] + html_unescape_seq(t.skip(4))
    } else if t.len() >= 4 && t.take(4) == seq!['&', 'g', 't', ';'] {
        seq!['>'] + html_unescape_seq(t.skip(4))
    } else if t.len() >= 6 && t.take(6) == seq!['&', 'q', 'u', 'o', 't', ';'] {
        seq!['"'] + html_unescape_seq(t.skip(6))
    } else if t.len() >= 5 && t.take(5) == seq!['&', '#', '3', '9', ';'] {
        seq!['\''] + html_unescape_seq(t.skip(5))
    } else {
        seq![t[0]] + html_unescape_seq(t.skip(1))
    }
}

/// Escaping a concatenation escapes each part.
proof fn lemma_html_escape_concat(a: Seq<char>, b: Seq<char>)
    ensures
        html_escape_seq(a + b) == html_escape_seq(a) + html_escape_seq(b),
    decreases b.len(),
{
    if b.len() == 0 {
        assert(a + b =~= a);
        assert(html_escape_seq(a) + html_escape_seq(b) =~= html_escape_seq(a));
    } else {
        lemma_html_escape_concat(a, b.drop_last());
        assert((a + b).drop_last() =~= a + b.drop_last());
        assert((a + b).last() == b.last());
        assert(html_escape_seq(a) + html_escape_seq(b) =~= html_escape_seq(a) + html_escape_seq(
            b.drop_last(),
        ) + html_escape_char(b.last()));
    }
}

/// Reading back the escape of one character, followed by any text, gives
/// that character followed by the reading of the text.
proof fn lemma_unescape_step(c: char, x: Seq<char>)
    ensures
        html_unescape_seq(html_escape_char(c) + x) == seq![c] + html_unescape_seq(x),
{
    let t = html_escape_char(c) + x;
    let n = html_escape_char(c).len() as int;
    assert(t.skip(n) =~= x);
    assert(t.take(n) =~= html_escape_char(c));
    if t.len() >= 4 {
        assert(t.take(4)[0] == t[0]);
        assert(t.take(4)[1] == t[1]);
    }
    if t.len() >= 5 {
        assert(t.take(5)[0] == t[0]);
        assert(t.take(5)[1] == t[1]);
    }
    if t.len() >= 6 {
        assert(t.take(6)[0] == t[0]);
        assert(t.take(6)[1] == t[1]);
    }
    if c != '&' && c != '<' && c != '>' && c != '"' && c != '\'' {
        assert(t[0] == c);
        assert(t.skip(1) =~= x);
    } else {
        assert(t[0] == '&');
        assert(t[1] == html_escape_char(c)[1]);
    }
}

/// Reading back escaped HTML gives the text that was escaped, so no two
/// texts have the same escape.
pub proof fn lemma_html_escape_undone(s: Seq<char>)
    ensures
        html_unescape_seq(html_escape_seq(s)) == s,
    decreases s.len(),
{
    if s.len() > 0 {
        let rest = s.drop_first();
        assert(seq![s[0]] + rest =~= s);
        lemma_html_escape_concat(seq![s[0]], rest);
        assert(html_escape_seq(seq![s[0]]) =~= html_escape_char(s[0])) by {
            let one = seq![s[0]];
            assert(one.drop_last() =~= Seq::<char>::empty());
            assert(html_escape_seq(one.drop_last()) =~= Seq::<char>::empty());
            assert(one.last() == s[0]);
            assert(html_escape_seq(one) == html_escape_seq(one.drop_last()) + html_escape_char(s[0]));
        }
        lemma_unescape_step(s[0], html_escape_seq(rest));
        lemma_html_escape_undone(rest);
    } else {
        assert(html_escape_seq(s) =~= Seq::<char>::empty());
    }
}

/// Different texts have different escapes.
pub proof fn lemma_html_escape_injective(a: Seq<char>, b: Seq<char>)
    requires
        html_escape_seq(a) == html_escape_seq(b),
    ensures
        a == b,
{
    lemma_html_escape_undone(a);
    lemma_html_escape_undone(b);
}

/// Each JSON text sits in the report between its own script element's
/// opening tag and a closing `</script>`, escaped so that it holds no `<`:
/// nothing in it can end the element, which ends at the tag right after it.
pub proof fn lemma_report_json_contained(
    folder: Seq<char>,
    scan_date: Seq<char>,
    patterns: Seq<Seq<char>>,
    file_types: Seq<(Seq<char>, usize)>,
    errors: Seq<(Seq<char>, Seq<char>)>,
    files_scanned: nat,
    affected_files: nat,
    records: Seq<MatchRecordView>,
    include_capture_groups: bool,
    records_json: Seq<char>,
    file_types_json: Seq<char>,
    patterns_json: Seq<char>,
)
    ensures
        ({
            let page = report_seq(
                folder,
                scan_date,
                patterns,
                file_types,
                errors,
                files_scanned,
                affected_files,
                records,
                include_capture_groups,
                records_json,
                file_types_json,
                patterns_json,
            );
            &&& exists|before: Seq<char>, after: Seq<char>|
                page == before + ROWS_DATA_OPEN@ + script_escape_seq(records_json) + SCRIPT_CLOSE@
                    + after
            &&& exists|before: Seq<char>, after: Seq<char>|
                page == before + FILE_TYPES_DATA_OPEN@ + script_escape_seq(file_types_json)
                    + SCRIPT_CLOSE@ + after
            &&& exists|before: Seq<char>, after: Seq<char>|
                page == before + PATTERNS_DATA_OPEN@ + script_escape_seq(patterns_json)
                    + SCRIPT_CLOSE@ + after
            &&& !script_escape_seq(records_json).contains('<')
            &&& !script_escape_seq(file_types_json).contains('<')
            &&& !script_escape_seq(patterns_json).contains('<')
        }),
{
    let body = report_body_seq(
        folder,
        scan_date,
        patterns,
        file_types,
        errors,
        files_scanned,
        affected_files,
        records,
        include_capture_groups,
    );
    let rows = script_data_seq(ROWS_DATA_OPEN@, records_json);
    let types = script_data_seq(FILE_TYPES_DATA_OPEN@, file_types_json);
    let pats = script_data_seq(PATTERNS_DATA_OPEN@, patterns_json);
    let tail = report_tail_seq(include_capture_groups);
    let page = report_seq(
        folder,
        scan_date,
        patterns,
        file_types,
        errors,
        files_scanned,
        affected_files,
        records,
        include_capture_groups,
        records_json,
        file_types_json,
        patterns_json,
    );
    assert(page == body + rows + SCRIPT_GAP@ + types + SCRIPT_GAP@ + pats + tail);
    let after_rows = SCRIPT_GAP@ + types + SCRIPT_GAP@ + pats + tail;
    assert(page =~= body + ROWS_DATA_OPEN@ + script_escape_seq(records_json) + SCRIPT_CLOSE@
        + after_rows);
    let before_types = body + rows + SCRIPT_GAP@;
    let after_types = SCRIPT_GAP@ + pats + tail;
    assert(page =~= before_types + FILE_TYPES_DATA_OPEN@ + script_escape_seq(file_types_json)
        + SCRIPT_CLOSE@ + after_types);
    let before_pats = body + rows + SCRIPT_GAP@ + types + SCRIPT_GAP@;
    assert(page =~= before_pats + PATTERNS_DATA_OPEN@ + script_escape_seq(patterns_json)
        + SCRIPT_CLOSE@ + tail);
    lemma_script_escape_is_inert(records_json);
    lemma_script_escape_is_inert(file_types_json);
    lemma_script_escape_is_inert(patterns_json);
}

/// The report's own output file is never read, and neither is anything
/// that is not a file or is a binary file: an entry is read only when its
/// comparable path differs from the output path, it is a file, and its
/// extension is not a binary one.
pub proof fn lemma_read_only_admitted_files(
    plan: SweepPlanView,
    path: Seq<char>,
    comparable: Seq<char>,
    is_file: bool,
)
    ensures
        path_equal(comparable, plan.output_path) ==> !is_read(plan, path, comparable, is_file),
        !is_file ==> !is_read(plan, path, comparable, is_file),
        is_binary_path(path) ==> !is_read(plan, path, comparable, is_file),
        is_read(plan, path, comparable, is_file) ==> glob_admits(path, plan.root, plan.glob),
        plan.glob is None && is_file && !is_binary_path(path) && !path_equal(
            comparable,
            plan.output_path,
        ) ==> is_read(plan, path, comparable, is_file),
{
}

/// A glob is tried on the path relative to the folder and on the file's
/// name: a glob that matches either admits the file, and the same glob
/// written with `!` refuses it.
pub proof fn lemma_glob_tries_relative_path_and_name(
    path: Seq<char>,
    root: Seq<char>,
    pattern: Seq<char>,
    rel: Seq<char>,
    name: Seq<char>,
)
    requires
        rel == (match path_strip_prefix(path, root) {
            Some(r) => r,
            None => path,
        }),
    ensures
        glob_matches(pattern, rel) ==> glob_admits(
            path,
            root,
            Some(FileGlobView { pattern, exclude: false }),
        ),
        glob_matches(pattern, rel) ==> !glob_admits(
            path,
            root,
            Some(FileGlobView { pattern, exclude: true }),
        ),
        path_file_name(rel) == Some(name) && glob_matches(pattern, name) ==> glob_admits(
            path,
            root,
            Some(FileGlobView { pattern, exclude: false }),
        ),
        path_file_name(rel) == Some(name) && glob_matches(pattern, name) ==> !glob_admits(
            path,
            root,
            Some(FileGlobView { pattern, exclude: true }),
        ),
        !glob_matches(pattern, rel) && (forall|n: Seq<char>|
            path_file_name(rel) == Some(n) ==> !glob_matches(pattern, n)) ==> !glob_admits(
            path,
            root,
            Some(FileGlobView { pattern, exclude: false }),
        ),
{
}

/// Each record of a file's text holds exactly the text of the bytes that
/// its columns span on its line, nothing added or removed: with the
/// line's UTF-8 bytes `b`, the matched text is the decoding of
/// `b[start_column - 1 .. end_column - 1]`, and its line is one of the file's.
pub proof fn lemma_records_hold_their_span(
    path: Seq<char>,
    lines: Seq<Seq<char>>,
    patterns: Seq<PatternView>,
    include_capture_groups: bool,
)
    ensures
        forall|i: int|
            0 <= i < content_records(path, lines, patterns, include_capture_groups).len() ==> {
                let r = #[trigger] content_records(path, lines, patterns, include_capture_groups)[i];
                &&& 1 <= r.line <= lines.len()
                &&& 1 <= r.start_column
                &&& r.matched_text == decode_utf8(
                    encode_utf8(lines[r.line - 1]).subrange(r.start_column - 1, r.end_column - 1),
                )
            },
    decreases lines.len(),
{
    if lines.len() > 0 {
        let prefix = lines.drop_last();
        lemma_records_hold_their_span(path, prefix, patterns, include_capture_groups);
        let k = lines.len() - 1;
        lemma_line_records_hold_their_span(path, patterns, k, lines.last(), include_capture_groups);
        let before = content_records(path, prefix, patterns, include_capture_groups);
        let added = line_records(path, patterns, k, lines.last(), include_capture_groups);
        let rs = content_records(path, lines, patterns, include_capture_groups);
        assert(rs == before + added);
        assert forall|i: int| 0 <= i < rs.len() implies {
            let r = #[trigger] rs[i];
            &&& 1 <= r.line <= lines.len()
            &&& 1 <= r.start_column
            &&& r.matched_text == decode_utf8(
                encode_utf8(lines[r.line - 1]).subrange(r.start_column - 1, r.end_column - 1),
            )
        } by {
            if i < before.len() {
                assert(rs[i] == before[i]);
                assert(lines[rs[i].line - 1] == prefix[rs[i].line - 1]);
            } else {
                assert(rs[i] == added[i - before.len()]);
            }
        }
    }
}

proof fn lemma_line_records_hold_their_span(
    path: Seq<char>,
    patterns: Seq<PatternView>,
    line_index: int,
    line: Seq<char>,
    include_capture_groups: bool,
)
    ensures
        forall|i: int|
            0 <= i < line_records(path, patterns, line_index, line, include_capture_groups).len()
                ==> {
                let r = #[trigger] line_records(
                    path,
                    patterns,
                    line_index,
                    line,
                    include_capture_groups,
                )[i];
                &&& r.line == line_index + 1
                &&& 1 <= r.start_column
                &&& r.matched_text == decode_utf8(
                    encode_utf8(line).subrange(r.start_column - 1, r.end_column - 1),
                )
            },
    decreases patterns.len(),
{
    if patterns.len() > 0 {
        let prefix = patterns.drop_last();
        let p = patterns.last();
        lemma_line_records_hold_their_span(path, prefix, line_index, line, include_capture_groups);
        let before = line_records(path, prefix, line_index, line, include_capture_groups);
        let added = pattern_line_records(path, p, line_index, line, include_capture_groups);
        let all = line_records(path, patterns, line_index, line, include_capture_groups);
        assert(all == before + added);
        if include_capture_groups {
            lemma_capture_records_hold_their_span(
                path,
                p.source,
                regex_capture_names(p.source, p.ignore_case),
                line_index,
                line,
                regex_captures_all(p.source, p.ignore_case, line),
            );
        }
        assert forall|i: int| 0 <= i < all.len() implies {
            let r = #[trigger] all[i];
            &&& r.line == line_index + 1
            &&& 1 <= r.start_column
            &&& r.matched_text == decode_utf8(
                encode_utf8(line).subrange(r.start_column - 1, r.end_column - 1),
            )
        } by {
            if i < before.len() {
                assert(all[i] == before[i]);
            } else {
                assert(all[i] == added[i - before.len()]);
                if !include_capture_groups {
                    let spans = regex_find_all(p.source, p.ignore_case, line);
                    assert(added == find_records(path, p.source, line_index, line, spans));
                    assert(added[i - before.len()] == match_record(
                        path,
                        p.source,
                        line_index,
                        line,
                        spans[i - before.len()],
                        seq![],
                    ));
                }
            }
        }
    }
}

proof fn lemma_capture_records_hold_their_span(
    path: Seq<char>,
    pattern: Seq<char>,
    names: Seq<Option<Seq<char>>>,
    line_index: int,
    line: Seq<char>,
    caps: Seq<Seq<Option<(usize, usize)>>>,
)
    ensures
        forall|i: int|
            0 <= i < capture_records(path, pattern, names, line_index, line, caps).len() ==> {
                let r = #[trigger] capture_records(path, pattern, names, line_index, line, caps)[i];
                &&& r.line == line_index + 1
                &&& 1 <= r.start_column
                &&& r.matched_text == decode_utf8(
                    encode_utf8(line).subrange(r.start_column - 1, r.end_column - 1),
                )
            },
    decreases caps.len(),
{
    if caps.len() > 0 {
        lemma_capture_records_hold_their_span(path, pattern, names, line_index, line, caps.drop_last());
        let before = capture_records(path, pattern, names, line_index, line, caps.drop_last());
        let all = capture_records(path, pattern, names, line_index, line, caps);
        assert forall|i: int| 0 <= i < all.len() implies {
            let r = #[trigger] all[i];
            &&& r.line == line_index + 1
            &&& 1 <= r.start_column
            &&& r.matched_text == decode_utf8(
                encode_utf8(line).subrange(r.start_column - 1, r.end_column - 1),
            )
        } by {
            if i < before.len() {
                assert(all[i] == before[i]);
            }
        }
    }
}

/// Every pattern that the planned sweep holds builds with the request's
/// ignore-case setting.
proof fn lemma_no_error_means_each_builds(sources: Seq<Seq<char>>, ignore_case: bool)
    requires
        first_regex_error(sources, ignore_case) is None,
    ensures
        forall|i: int|
            0 <= i < sources.len() ==> regex_compile_error(#[trigger] sources[i], ignore_case) is None,
    decreases sources.len(),
{
    if sources.len() > 0 {
        lemma_no_error_means_each_builds(sources.drop_last(), ignore_case);
        assert forall|i: int| 0 <= i < sources.len() implies regex_compile_error(
            #[trigger] sources[i],
            ignore_case,
        ) is None by {
            if i < sources.len() - 1 {
                assert(sources[i] == sources.drop_last()[i]);
            }
        }
    }
}

/// A planned sweep keeps what the request asked for: its patterns are the
/// request's non-blank patterns, trimmed and in order, each matching with
/// the request's ignore-case setting and each building with it; it keeps
/// the capture-group setting, and sweeps the trimmed folder.
pub proof fn lemma_plan_keeps_request(request: SweepRequest, root_is_dir: bool, output_path: Seq<char>)
    ensures
        planned_sweep(request, root_is_dir, output_path) matches Ok(plan) ==> {
            &&& plan.patterns.len() == pattern_sources(texts(request.patterns@)).len()
            &&& plan.patterns.len() > 0
            &&& forall|i: int|
                0 <= i < plan.patterns.len() ==> {
                    &&& (#[trigger] plan.patterns[i]).ignore_case == request.ignore_case
                    &&& plan.patterns[i].source == pattern_sources(texts(request.patterns@))[i]
                    &&& regex_compile_error(plan.patterns[i].source, request.ignore_case) is None
                }
            &&& plan.include_capture_groups == request.include_capture_groups
            &&& plan.output_path == output_path
            &&& root_is_dir
        },
{
    let sources = pattern_sources(texts(request.patterns@));
    if planned_sweep(request, root_is_dir, output_path) is Ok {
        lemma_no_error_means_each_builds(sources, request.ignore_case);
    }
}

/// Escaping JSON for a script element rewrites only `<`, `>` and `&`:
/// every other character is kept as it is, so a text without those three
/// characters is embedded unchanged.
pub proof fn lemma_script_escape_keeps_other_characters(s: Seq<char>)
    ensures
        forall|c: char|
            c != '<' && c != '>' && c != '&' ==> #[trigger] script_escape_char(c) == seq![c],
        !s.contains('<') && !s.contains('>') && !s.contains('&') ==> script_escape_seq(s) == s,
    decreases s.len(),
{
    if s.len() > 0 {
        lemma_script_escape_keeps_other_characters(s.drop_last());
        if !s.contains('<') && !s.contains('>') && !s.contains('&') {
            let rest = s.drop_last();
            assert(!rest.contains('<') && !rest.contains('>') && !rest.contains('&')) by {
                if rest.contains('<') || rest.contains('>') || rest.contains('&') {
                    let i = choose|i: int|
                        0 <= i < rest.len() && (rest[i] == '<' || rest[i] == '>' || rest[i]
                            == '&');
                    assert(s[i] == rest[i]);
                }
            }
            assert(s[s.len() - 1] == s.last());
            assert(script_escape_seq(s) =~= s);
        }
    } else {
        assert(script_escape_seq(s) =~= s);
    }
}

} // verus!
