//! Match records: what a sweep reports for each match of a pattern in a
//! file, and how they are gathered from a file's text.

use vstd::prelude::*;

use crate::paths::{display_path, display_path_spec};
use crate::patterns::{
    byte_span_text, capture_names, captures_all, find_all, opt_span_key, opt_text,
    regex_capture_names, regex_captures_all, regex_find_all, CompiledPattern, MatchSpan,
    PatternView, pattern_views,
};
use crate::text::{lines_seq, split_lines, texts};

verus! {

/// One capture group of a match, its columns counted from 1 in bytes.
pub struct CaptureGroup {
    pub index: usize,
    pub name: Option<String>,
    pub value: String,
    pub start_column: usize,
    pub end_column: usize,
}

/// A capture group as plain values.
pub struct CaptureGroupView {
    pub index: int,
    pub name: Option<Seq<char>>,
    pub value: Seq<char>,
    pub start_column: int,
    pub end_column: int,
}

impl View for CaptureGroup {
    type V = CaptureGroupView;

    open spec fn view(&self) -> CaptureGroupView {
        CaptureGroupView {
            index: self.index as int,
            name: opt_text(self.name),
            value: self.value@,
            start_column: self.start_column as int,
            end_column: self.end_column as int,
        }
    }
}

/// One match: the file, the pattern, the matched text, its line counted
/// from 1 and its columns counted from 1 in bytes.
pub struct MatchRecord {
    pub path: String,
    pub pattern: String,
    pub matched_text: String,
    pub line: usize,
    pub start_column: usize,
    pub end_column: usize,
    pub capture_groups: Vec<CaptureGroup>,
}

/// A match record as plain values.
pub struct MatchRecordView {
    pub path: Seq<char>,
    pub pattern: Seq<char>,
    pub matched_text: Seq<char>,
    pub line: int,
    pub start_column: int,
    pub end_column: int,
    pub capture_groups: Seq<CaptureGroupView>,
}

impl View for MatchRecord {
    type V = MatchRecordView;

    open spec fn view(&self) -> MatchRecordView {
        MatchRecordView {
            path: self.path@,
            pattern: self.pattern@,
            matched_text: self.matched_text@,
            line: self.line as int,
            start_column: self.start_column as int,
            end_column: self.end_column as int,
            capture_groups: group_list_views(self.capture_groups@),
        }
    }
}

/// A file that could not be read, with the reason.
pub struct FileError {
    pub path: String,
    pub error: String,
}

/// A capture group lies where a match can: at index 1 or later, its
/// columns counted from 1 with the start not after the end.
pub open spec fn group_well_placed(g: CaptureGroupView) -> bool {
    &&& g.index >= 1
    &&& 1 <= g.start_column <= g.end_column
}

/// A record lies on a line counted from 1, its columns counted from 1 with
/// the start not after the end, and so do its capture groups.
pub open spec fn well_placed(r: MatchRecordView) -> bool {
    &&& r.line >= 1
    &&& 1 <= r.start_column <= r.end_column
    &&& forall|g: int|
        0 <= g < r.capture_groups.len() ==> group_well_placed(#[trigger] r.capture_groups[g])
}

/// A failure as plain values: the path and the message.
pub open spec fn error_view(e: FileError) -> (Seq<char>, Seq<char>) {
    (e.path@, e.error@)
}

/// The views of a sequence of failures.
pub open spec fn error_views(v: Seq<FileError>) -> Seq<(Seq<char>, Seq<char>)> {
    v.map_values(|e: FileError| error_view(e))
}

/// The views of a sequence of capture groups.
pub open spec fn group_list_views(v: Seq<CaptureGroup>) -> Seq<CaptureGroupView> {
    v.map_values(|g: CaptureGroup| g@)
}

/// The views of a sequence of match records.
pub open spec fn record_views(v: Seq<MatchRecord>) -> Seq<MatchRecordView> {
    v.map_values(|r: MatchRecord| r@)
}

/// The capture groups after group 0 that took part in a match, with their
/// index, the group's name where it has one, and their text and columns.
pub open spec fn group_views(
    caps: Seq<Option<(usize, usize)>>,
    names: Seq<Option<Seq<char>>>,
    line: Seq<char>,
) -> Seq<CaptureGroupView>
    decreases caps.len(),
{
    if caps.len() <= 1 {
        seq![]
    } else {
        let rest = group_views(caps.drop_last(), names, line);
        let i = caps.len() - 1;
        match caps.last() {
            Some(sp) => rest.push(
                CaptureGroupView {
                    index: i,
                    name: if i < names.len() {
                        names[i]
                    } else {
                        None
                    },
                    value: byte_span_text(line, sp.0, sp.1),
                    start_column: sp.0 + 1,
                    end_column: sp.1 + 1,
                },
            ),
            None => rest,
        }
    }
}

/// The record of a match spanning the bytes `span` of line `line_index`
/// (counted from 0).
pub open spec fn match_record(
    path: Seq<char>,
    pattern: Seq<char>,
    line_index: int,
    line: Seq<char>,
    span: (usize, usize),
    groups: Seq<CaptureGroupView>,
) -> MatchRecordView {
    MatchRecordView {
        path,
        pattern,
        matched_text: byte_span_text(line, span.0, span.1),
        line: line_index + 1,
        start_column: span.0 + 1,
        end_column: span.1 + 1,
        capture_groups: groups,
    }
}

/// The records of the matches `spans`, without capture groups.
pub open spec fn find_records(
    path: Seq<char>,
    pattern: Seq<char>,
    line_index: int,
    line: Seq<char>,
    spans: Seq<(usize, usize)>,
) -> Seq<MatchRecordView> {
    spans.map_values(|sp: (usize, usize)| match_record(path, pattern, line_index, line, sp, seq![]))
}

/// The records of the matches `caps`, each with its capture groups; a match
/// without a group 0 gives none.
pub open spec fn capture_records(
    path: Seq<char>,
    pattern: Seq<char>,
    names: Seq<Option<Seq<char>>>,
    line_index: int,
    line: Seq<char>,
    caps: Seq<Seq<Option<(usize, usize)>>>,
) -> Seq<MatchRecordView>
    decreases caps.len(),
{
    if caps.len() == 0 {
        seq![]
    } else {
        let rest = capture_records(path, pattern, names, line_index, line, caps.drop_last());
        let c = caps.last();
        if c.len() > 0 && c[0] is Some {
            rest.push(
                match_record(path, pattern, line_index, line, c[0]->0, group_views(c, names, line)),
            )
        } else {
            rest
        }
    }
}

/// The records of one pattern's matches in one line.
pub open spec fn pattern_line_records(
    path: Seq<char>,
    p: PatternView,
    line_index: int,
    line: Seq<char>,
    include_capture_groups: bool,
) -> Seq<MatchRecordView> {
    if include_capture_groups {
        capture_records(
            path,
            p.source,
            regex_capture_names(p.source, p.ignore_case),
            line_index,
            line,
            regex_captures_all(p.source, p.ignore_case, line),
        )
    } else {
        find_records(path, p.source, line_index, line, regex_find_all(p.source, p.ignore_case, line))
    }
}

/// The records of all patterns' matches in one line, pattern by pattern.
pub open spec fn line_records(
    path: Seq<char>,
    patterns: Seq<PatternView>,
    line_index: int,
    line: Seq<char>,
    include_capture_groups: bool,
) -> Seq<MatchRecordView>
    decreases patterns.len(),
{
    if patterns.len() == 0 {
        seq![]
    } else {
        line_records(path, patterns.drop_last(), line_index, line, include_capture_groups)
            + pattern_line_records(path, patterns.last(), line_index, line, include_capture_groups)
    }
}

/// The records of all matches in `lines`, line by line.
pub open spec fn content_records(
    path: Seq<char>,
    lines: Seq<Seq<char>>,
    patterns: Seq<PatternView>,
    include_capture_groups: bool,
) -> Seq<MatchRecordView>
    decreases lines.len(),
{
    if lines.len() == 0 {
        seq![]
    } else {
        content_records(path, lines.drop_last(), patterns, include_capture_groups) + line_records(
            path,
            patterns,
            lines.len() - 1,
            lines.last(),
            include_capture_groups,
        )
    }
}

/// The records of every match in the file `path` (shown relative to `root`)
/// whose text is `content`.
pub open spec fn file_records(
    path: Seq<char>,
    root: Seq<char>,
    content: Seq<char>,
    patterns: Seq<PatternView>,
    include_capture_groups: bool,
) -> Seq<MatchRecordView> {
    content_records(
        display_path_spec(path, root),
        lines_seq(content),
        patterns,
        include_capture_groups,
    )
}

/// A record without its capture groups.
pub open spec fn without_groups(r: MatchRecordView) -> MatchRecordView {
    MatchRecordView {
        path: r.path,
        pattern: r.pattern,
        matched_text: r.matched_text,
        line: r.line,
        start_column: r.start_column,
        end_column: r.end_column,
        capture_groups: seq![],
    }
}

/// Records without their capture groups.
pub open spec fn strip_groups(rs: Seq<MatchRecordView>) -> Seq<MatchRecordView> {
    rs.map_values(|r: MatchRecordView| without_groups(r))
}

/// The matches of `pattern` in `line` with groups, taken by group 0, are
/// its matches without groups.
pub open spec fn captures_agree(source: Seq<char>, ignore_case: bool, line: Seq<char>) -> bool {
    let caps = regex_captures_all(source, ignore_case, line);
    let spans = regex_find_all(source, ignore_case, line);
    &&& caps.len() == spans.len()
    &&& forall|i: int|
        0 <= i < caps.len() ==> (#[trigger] caps[i]).len() > 0 && caps[i][0] == Some(spans[i])
}

proof fn lemma_strip_concat(a: Seq<MatchRecordView>, b: Seq<MatchRecordView>)
    ensures
        strip_groups(a + b) == strip_groups(a) + strip_groups(b),
{
    assert(strip_groups(a + b) =~= strip_groups(a) + strip_groups(b));
}

/// Records made from captures whose group 0 are the given spans are, without
/// their groups, the records of those spans.
proof fn lemma_captures_without_groups(
    path: Seq<char>,
    pattern: Seq<char>,
    names: Seq<Option<Seq<char>>>,
    line_index: int,
    line: Seq<char>,
    caps: Seq<Seq<Option<(usize, usize)>>>,
    spans: Seq<(usize, usize)>,
)
    requires
        caps.len() == spans.len(),
        forall|i: int|
            0 <= i < caps.len() ==> (#[trigger] caps[i]).len() > 0 && caps[i][0] == Some(spans[i]),
    ensures
        strip_groups(capture_records(path, pattern, names, line_index, line, caps)) == find_records(
            path,
            pattern,
            line_index,
            line,
            spans,
        ),
    decreases caps.len(),
{
    if caps.len() > 0 {
        let cr = caps.drop_last();
        let sr = spans.drop_last();
        assert forall|i: int| 0 <= i < cr.len() implies (#[trigger] cr[i]).len() > 0 && cr[i][0]
            == Some(sr[i]) by {
            assert(cr[i] == caps[i]);
        }
        lemma_captures_without_groups(path, pattern, names, line_index, line, cr, sr);
        assert(caps.last().len() > 0 && caps.last()[0] == Some(spans.last()));
        let prev = capture_records(path, pattern, names, line_index, line, cr);
        let rec = match_record(
            path,
            pattern,
            line_index,
            line,
            spans.last(),
            group_views(caps.last(), names, line),
        );
        assert(capture_records(path, pattern, names, line_index, line, caps) == prev.push(rec));
        assert(strip_groups(prev.push(rec)) =~= strip_groups(prev).push(without_groups(rec)));
        assert(find_records(path, pattern, line_index, line, spans) =~= find_records(
            path,
            pattern,
            line_index,
            line,
            sr,
        ).push(match_record(path, pattern, line_index, line, spans.last(), seq![])));
        assert(without_groups(rec) == match_record(path, pattern, line_index, line, spans.last(), seq![]));
    } else {
        assert(strip_groups(capture_records(path, pattern, names, line_index, line, caps)) =~= seq![]);
    }
}

/// Where the captures agree with the matches, one pattern's records in one
/// line with groups are, without their groups, its records without groups.
proof fn lemma_pattern_line_without_groups(
    path: Seq<char>,
    p: PatternView,
    line_index: int,
    line: Seq<char>,
)
    requires
        captures_agree(p.source, p.ignore_case, line),
    ensures
        strip_groups(pattern_line_records(path, p, line_index, line, true)) == pattern_line_records(
            path,
            p,
            line_index,
            line,
            false,
        ),
{
    lemma_captures_without_groups(
        path,
        p.source,
        regex_capture_names(p.source, p.ignore_case),
        line_index,
        line,
        regex_captures_all(p.source, p.ignore_case, line),
        regex_find_all(p.source, p.ignore_case, line),
    );
}

/// The capture groups of one match after group 0, as records.
fn capture_group_list(caps: &Vec<Option<MatchSpan>>, names: &Vec<Option<String>>, line: &str) -> (r:
    Vec<CaptureGroup>)
    requires
        forall|j: int|
            0 <= j < caps@.len() && (#[trigger] caps@[j]) is Some ==> caps@[j]->0.lies_in(line@),
    ensures
        group_list_views(r@) == group_views(
            caps@.map_values(|m: Option<MatchSpan>| opt_span_key(m)),
            names@.map_values(|n: Option<String>| opt_text(n)),
            line@,
        ),
        forall|g: int| 0 <= g < r@.len() ==> group_well_placed(#[trigger] r@[g]@),
{
    let ghost keys = caps@.map_values(|m: Option<MatchSpan>| opt_span_key(m));
    let ghost name_views = names@.map_values(|n: Option<String>| opt_text(n));
    let mut out: Vec<CaptureGroup> = Vec::new();
    if caps.len() <= 1 {
        assert(group_list_views(out@) =~= group_views(keys, name_views, line@));
        return out;
    }
    let mut i: usize = 1;
    assert(group_views(keys.take(1), name_views, line@) =~= seq![]);
    assert(group_list_views(out@) =~= seq![]);
    while i < caps.len()
        invariant
            1 <= i <= caps@.len(),
            keys == caps@.map_values(|m: Option<MatchSpan>| opt_span_key(m)),
            name_views == names@.map_values(|n: Option<String>| opt_text(n)),
            forall|j: int|
                0 <= j < caps@.len() && (#[trigger] caps@[j]) is Some ==> caps@[j]->0.lies_in(
                    line@,
                ),
            group_list_views(out@) == group_views(keys.take(i as int), name_views, line@),
            forall|g: int| 0 <= g < out@.len() ==> group_well_placed(#[trigger] out@[g]@),
        decreases caps.len() - i,
    {
        assert(keys.take(i + 1).drop_last() =~= keys.take(i as int));
        assert(keys.take(i + 1).last() == opt_span_key(caps@[i as int]));
        match &caps[i] {
            Some(m) => {
                assert(caps@[i as int] is Some);
                let name = if i < names.len() {
                    match &names[i] {
                        Some(n) => Some(n.clone()),
                        None => None,
                    }
                } else {
                    None
                };
                let g = CaptureGroup {
                    index: i,
                    name,
                    value: m.text.clone(),
                    start_column: m.start + 1,
                    end_column: m.end + 1,
                };
                let ghost before = out@;
                out.push(g);
                assert(group_list_views(out@) =~= group_list_views(before).push(g@));
            },
            None => {},
        }
        i += 1;
    }
    assert(keys.take(i as int) =~= keys);
    out
}

/// Appends the records of one pattern's matches in line `line_index`.
fn push_pattern_line(
    records: &mut Vec<MatchRecord>,
    path: &String,
    pattern: &CompiledPattern,
    names: &Vec<Option<String>>,
    line_index: usize,
    line: &String,
    include_capture_groups: bool,
)
    requires
        line_index < usize::MAX,
        names@.map_values(|n: Option<String>| opt_text(n)) == regex_capture_names(
            pattern@.source,
            pattern@.ignore_case,
        ),
    ensures
        record_views(final(records)@) == record_views(old(records)@) + pattern_line_records(
            path@,
            pattern@,
            line_index as int,
            line@,
            include_capture_groups,
        ),
        forall|j: int|
            old(records)@.len() <= j < final(records)@.len() ==> well_placed(
                #[trigger] final(records)@[j]@,
            ),
        include_capture_groups ==> captures_agree(pattern@.source, pattern@.ignore_case, line@),
{
    let ghost start = record_views(records@);
    let ghost start_len = records@.len();
    let source = pattern.source();
    if include_capture_groups {
        let caps = captures_all(pattern, line.as_str());
        let ghost all = regex_captures_all(pattern@.source, pattern@.ignore_case, line@);
        let ghost names_view = regex_capture_names(pattern@.source, pattern@.ignore_case);
        assert(captures_agree(pattern@.source, pattern@.ignore_case, line@)) by {
            let spans = regex_find_all(pattern@.source, pattern@.ignore_case, line@);
            assert forall|i: int| 0 <= i < all.len() implies (#[trigger] all[i]).len() > 0
                && all[i][0] == Some(spans[i]) by {
                assert(all[i] == caps@[i]@.map_values(|m: Option<MatchSpan>| opt_span_key(m)));
                assert(caps@[i]@.len() > 0);
            }
        }
        let mut k: usize = 0;
        assert(start + capture_records(path@, source@, names_view, line_index as int, line@, all.take(0)) =~= start);
        while k < caps.len()
            invariant
                k <= caps@.len(),
                line_index < usize::MAX,
                all == caps@.map_values(
                    |c: Vec<Option<MatchSpan>>| c@.map_values(|m: Option<MatchSpan>| opt_span_key(m)),
                ),
                forall|a: int, b: int|
                    0 <= a < caps@.len() && 0 <= b < caps@[a]@.len() && (#[trigger] caps@[a]@[b]) is Some
                        ==> caps@[a]@[b]->0.lies_in(line@),
                names@.map_values(|n: Option<String>| opt_text(n)) == names_view,
                source@ == pattern@.source,
                record_views(records@) == start + capture_records(
                    path@,
                    source@,
                    names_view,
                    line_index as int,
                    line@,
                    all.take(k as int),
                ),
                start_len == start.len(),
                start_len <= records@.len(),
                forall|j: int|
                    start_len <= j < records@.len() ==> well_placed(#[trigger] records@[j]@),
            decreases caps.len() - k,
        {
            assert(all.take(k + 1).drop_last() =~= all.take(k as int));
            let c = &caps[k];
            assert(all.take(k + 1).last() == c@.map_values(|m: Option<MatchSpan>| opt_span_key(m)));
            if c.len() > 0 {
                match &c[0] {
                    Some(whole) => {
                        assert(caps@[k as int]@[0] is Some);
                        let groups = capture_group_list(c, names, line.as_str());
                        let rec = MatchRecord {
                            path: path.clone(),
                            pattern: source.clone(),
                            matched_text: whole.text.clone(),
                            line: line_index + 1,
                            start_column: whole.start + 1,
                            end_column: whole.end + 1,
                            capture_groups: groups,
                        };
                        let ghost before = records@;
                        records.push(rec);
                        assert(record_views(records@) =~= record_views(before).push(rec@));
                    },
                    None => {},
                }
            }
            k += 1;
        }
        assert(all.take(k as int) =~= all);
    } else {
        let spans = find_all(pattern, line.as_str());
        let ghost all = regex_find_all(pattern@.source, pattern@.ignore_case, line@);
        let mut k: usize = 0;
        while k < spans.len()
            invariant
                k <= spans@.len(),
                line_index < usize::MAX,
                all == spans@.map_values(|m: MatchSpan| m.key()),
                forall|a: int| 0 <= a < spans@.len() ==> (#[trigger] spans@[a]).lies_in(line@),
                source@ == pattern@.source,
                record_views(records@) == start + find_records(
                    path@,
                    source@,
                    line_index as int,
                    line@,
                    all.take(k as int),
                ),
                start_len == start.len(),
                start_len <= records@.len(),
                forall|j: int|
                    start_len <= j < records@.len() ==> well_placed(#[trigger] records@[j]@),
            decreases spans.len() - k,
        {
            let m = &spans[k];
            assert(spans@[k as int].lies_in(line@));
            let rec = MatchRecord {
                path: path.clone(),
                pattern: source.clone(),
                matched_text: m.text.clone(),
                line: line_index + 1,
                start_column: m.start + 1,
                end_column: m.end + 1,
                capture_groups: Vec::new(),
            };
            let ghost before = records@;
            records.push(rec);
            assert(group_list_views(rec.capture_groups@) =~= seq![]);
            assert(record_views(records@) =~= record_views(before).push(rec@));
            assert(find_records(path@, source@, line_index as int, line@, all.take(k + 1))
                =~= find_records(path@, source@, line_index as int, line@, all.take(k as int)).push(rec@));
            k += 1;
        }
        assert(all.take(k as int) =~= all);
    }
}

/// Appends to `records` one record for each match of each pattern in each
/// line of `content`: line by line, pattern by pattern within a line, and in
/// the order the regex finds them. With `include_capture_groups` each record
/// carries the groups that took part in its match; without, none.
pub fn collect_matches(
    path: &str,
    root: &str,
    content: &str,
    patterns: &[CompiledPattern],
    include_capture_groups: bool,
    records: &mut Vec<MatchRecord>,
)
    ensures
        record_views(final(records)@) == record_views(old(records)@) + file_records(
            path@,
            root@,
            content@,
            pattern_views(patterns@),
            include_capture_groups,
        ),
        forall|j: int|
            old(records)@.len() <= j < final(records)@.len() ==> well_placed(
                #[trigger] final(records)@[j]@,
            ),
        include_capture_groups ==> strip_groups(
            file_records(path@, root@, content@, pattern_views(patterns@), true),
        ) == file_records(path@, root@, content@, pattern_views(patterns@), false),
{
    let ghost start_len = records@.len();
    let shown = display_path(path, root);
    let lines = split_lines(content);
    let ghost pviews = pattern_views(patterns@);
    let ghost lviews = texts(lines@);
    let ghost start = record_views(records@);
    let mut names: Vec<Vec<Option<String>>> = Vec::new();
    let mut p: usize = 0;
    while p < patterns.len()
        invariant
            p <= patterns@.len(),
            names@.len() == p,
            forall|j: int|
                0 <= j < p ==> (#[trigger] names@[j])@.map_values(|n: Option<String>| opt_text(n))
                    == regex_capture_names(patterns@[j]@.source, patterns@[j]@.ignore_case),
        decreases patterns.len() - p,
    {
        names.push(capture_names(&patterns[p]));
        p += 1;
    }
    let mut i: usize = 0;
    while i < lines.len()
        invariant
            i <= lines@.len(),
            names@.len() == patterns@.len(),
            forall|j: int|
                0 <= j < patterns@.len() ==> (#[trigger] names@[j])@.map_values(
                    |n: Option<String>| opt_text(n),
                ) == regex_capture_names(patterns@[j]@.source, patterns@[j]@.ignore_case),
            pviews == pattern_views(patterns@),
            lviews == texts(lines@),
            record_views(records@) == start + content_records(
                shown@,
                lviews.take(i as int),
                pviews,
                include_capture_groups,
            ),
            start_len == start.len(),
            start_len <= records@.len(),
            forall|j: int| start_len <= j < records@.len() ==> well_placed(#[trigger] records@[j]@),
            include_capture_groups ==> strip_groups(
                content_records(shown@, lviews.take(i as int), pviews, true),
            ) == content_records(shown@, lviews.take(i as int), pviews, false),
        decreases lines.len() - i,
    {
        let ghost at_line = record_views(records@);
        let n = lines.len();
        assert(i < n);
        let mut q: usize = 0;
        assert(at_line + line_records(shown@, pviews.take(0), i as int, lines@[i as int]@, include_capture_groups) =~= at_line);
        while q < patterns.len()
            invariant
                q <= patterns@.len(),
                i < lines@.len(),
                i < usize::MAX,
                names@.len() == patterns@.len(),
                forall|j: int|
                    0 <= j < patterns@.len() ==> (#[trigger] names@[j])@.map_values(
                        |n: Option<String>| opt_text(n),
                    ) == regex_capture_names(patterns@[j]@.source, patterns@[j]@.ignore_case),
                pviews == pattern_views(patterns@),
                record_views(records@) == at_line + line_records(
                    shown@,
                    pviews.take(q as int),
                    i as int,
                    lines@[i as int]@,
                    include_capture_groups,
                ),
                start_len == start.len(),
                start_len <= records@.len(),
                forall|j: int|
                    start_len <= j < records@.len() ==> well_placed(#[trigger] records@[j]@),
                include_capture_groups ==> strip_groups(
                    line_records(shown@, pviews.take(q as int), i as int, lines@[i as int]@, true),
                ) == line_records(shown@, pviews.take(q as int), i as int, lines@[i as int]@, false),
            decreases patterns.len() - q,
        {
            assert(pviews.take(q + 1).drop_last() =~= pviews.take(q as int));
            assert(pviews.take(q + 1).last() == patterns@[q as int]@);
            let ghost before = records@;
            push_pattern_line(
                records,
                &shown,
                &patterns[q],
                &names[q],
                i,
                &lines[i],
                include_capture_groups,
            );
            assert(record_views(records@).len() == records@.len());
            assert(record_views(before).len() == before.len());
            assert(records@.len() >= before.len());
            proof {
                if include_capture_groups {
                    let ln = lines@[i as int]@;
                    lemma_pattern_line_without_groups(shown@, patterns@[q as int]@, i as int, ln);
                    lemma_strip_concat(
                        line_records(shown@, pviews.take(q as int), i as int, ln, true),
                        pattern_line_records(shown@, patterns@[q as int]@, i as int, ln, true),
                    );
                }
            }
            assert forall|j: int| start_len <= j < records@.len() implies well_placed(
                #[trigger] records@[j]@,
            ) by {
                if j < before.len() {
                    assert(record_views(records@)[j] == record_views(before)[j]);
                }
            }
            q += 1;
        }
        assert(pviews.take(q as int) =~= pviews);
        assert(lviews.take(i + 1).drop_last() =~= lviews.take(i as int));
        assert(lviews.take(i + 1).last() == lines@[i as int]@);
        proof {
            if include_capture_groups {
                lemma_strip_concat(
                    content_records(shown@, lviews.take(i as int), pviews, true),
                    line_records(shown@, pviews, i as int, lines@[i as int]@, true),
                );
            }
        }
        i += 1;
    }
    assert(lviews.take(i as int) =~= lviews);
}

} // verus!
