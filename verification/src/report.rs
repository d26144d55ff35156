//! The standalone HTML report: escaping of text for HTML and for JSON inside
//! a script element, and the markup of chips, table rows and capture groups.

use vstd::prelude::*;

use crate::records::{error_views, FileError, group_list_views, CaptureGroup, CaptureGroupView, MatchRecord, MatchRecordView, record_views};
use crate::summary::{
    affected_files, file_type_counts, file_type_table, record_paths, strictly_sorted, type_count_views,
    type_keys, SweepData,
};
use std::collections::BTreeMap;
use crate::template::{
    REPORT_START, REPORT_AFTER_FOLDER, REPORT_AFTER_SCAN_DATE, REPORT_AFTER_PATTERNS_HTML, REPORT_AFTER_FILE_TYPES_HTML, REPORT_AFTER_ERRORS_HTML, REPORT_AFTER_FILES_SCANNED, REPORT_AFTER_AFFECTED_FILES, REPORT_AFTER_TOTAL_MATCHES, REPORT_AFTER_ERROR_COUNT, REPORT_AFTER_GROUPS_HEADER_HTML, REPORT_AFTER_ROWS_HTML, ROWS_DATA_OPEN, SCRIPT_CLOSE, SCRIPT_GAP, FILE_TYPES_DATA_OPEN, PATTERNS_DATA_OPEN, REPORT_AFTER_PATTERNS_JSON, REPORT_AFTER_INCLUDE_CAPTURE_GROUPS,
};
use crate::text::{chars_of, decimal, decimal_seq, push_char, texts};

verus! {

/// The HTML escape of one character.
pub open spec fn html_escape_char(c: char) -> Seq<char> {
    if c == '&' {
        seq!['&', 'a', 'm', 'p', ';']
    } else if c == '<' {
        seq!['&', 'l', 't', ';']
    } else if c == '>' {
        seq!['&', 'g', 't', ';']
    } else if c == '"' {
        seq!['&', 'q', 'u', 'o', 't', ';']
    } else if c == '\'' {
        seq!['&', '#', '3', '9', ';']
    } else {
        seq![c]
    }
}

/// `s` with `&`, `<`, `>`, `"` and `'` written as HTML character references.
pub open spec fn html_escape_seq(s: Seq<char>) -> Seq<char>
    decreases s.len(),
{
    if s.len() == 0 {
        seq![]
    } else {
        html_escape_seq(s.drop_last()) + html_escape_char(s.last())
    }
}

/// `value` made safe to place in HTML text or in a quoted attribute.
pub fn html_escape(value: &str) -> (r: String)
    ensures
        r@ == html_escape_seq(value@),
{
    let v = chars_of(value);
    let mut out = String::new();
    let mut i: usize = 0;
    while i < v.len()
        invariant
            i <= v@.len(),
            out@ == html_escape_seq(v@.take(i as int)),
        decreases v.len() - i,
    {
        let c = v[i];
        proof {
            reveal_strlit("&amp;");
            reveal_strlit("&lt;");
            reveal_strlit("&gt;");
            reveal_strlit("&quot;");
            reveal_strlit("&#39;");
        }
        if c == '&' {
            out.append("&amp;");
        } else if c == '<' {
            out.append("&lt;");
        } else if c == '>' {
            out.append("&gt;");
        } else if c == '"' {
            out.append("&quot;");
        } else if c == '\'' {
            out.append("&#39;");
        } else {
            push_char(&mut out, c);
        }
        assert(v@.take(i + 1).drop_last() =~= v@.take(i as int));
        assert(out@ =~= html_escape_seq(v@.take(i + 1)));
        i += 1;
    }
    assert(v@.take(i as int) =~= v@);
    out
}

/// The escape of one character for JSON inside a script element.
pub open spec fn script_escape_char(c: char) -> Seq<char> {
    if c == '<' {
        seq!['\\', 'u', '0', '0', '3', 'c']
    } else if c == '>' {
        seq!['\\', 'u', '0', '0', '3', 'e']
    } else if c == '&' {
        seq!['\\', 'u', '0', '0', '2', '6']
    } else {
        seq![c]
    }
}

/// `s` with `<`, `>` and `&` written as JSON `\u` escapes.
pub open spec fn script_escape_seq(s: Seq<char>) -> Seq<char>
    decreases s.len(),
{
    if s.len() == 0 {
        seq![]
    } else {
        script_escape_seq(s.drop_last()) + script_escape_char(s.last())
    }
}

/// JSON text made safe to embed in a `<script>` element: no `<`, `>` or `&`
/// is left, and the JSON value is unchanged.
pub fn json_for_script(value: &str) -> (r: String)
    ensures
        r@ == script_escape_seq(value@),
{
    let v = chars_of(value);
    let mut out = String::new();
    let mut i: usize = 0;
    while i < v.len()
        invariant
            i <= v@.len(),
            out@ == script_escape_seq(v@.take(i as int)),
        decreases v.len() - i,
    {
        let c = v[i];
        proof {
            reveal_strlit("\\u003c");
            reveal_strlit("\\u003e");
            reveal_strlit("\\u0026");
        }
        if c == '<' {
            out.append("\\u003c");
        } else if c == '>' {
            out.append("\\u003e");
        } else if c == '&' {
            out.append("\\u0026");
        } else {
            push_char(&mut out, c);
        }
        assert(v@.take(i + 1).drop_last() =~= v@.take(i as int));
        assert(out@ =~= script_escape_seq(v@.take(i + 1)));
        i += 1;
    }
    assert(v@.take(i as int) =~= v@);
    out
}

/// One chip: the escaped value inside a `chip` span.
pub open spec fn chip_seq(value: Seq<char>) -> Seq<char> {
    "<span class=\"chip\">"@ + html_escape_seq(value) + "</span>"@
}

/// The chips of `values`, in order.
pub open spec fn chip_list_seq(values: Seq<Seq<char>>) -> Seq<char>
    decreases values.len(),
{
    if values.len() == 0 {
        seq![]
    } else {
        chip_list_seq(values.drop_last()) + chip_seq(values.last())
    }
}

/// The chips of `values`, or a single "None" chip when there are none.
pub open spec fn chips_seq(values: Seq<Seq<char>>) -> Seq<char> {
    if values.len() == 0 {
        "<span class=\"chip\">None</span>"@
    } else {
        chip_list_seq(values)
    }
}

/// A row of chips, one per value.
pub fn chips_html(values: &[String]) -> (r: String)
    ensures
        r@ == chips_seq(values@.map_values(|v: String| v@)),
{
    let ghost views = values@.map_values(|v: String| v@);
    if values.len() == 0 {
        return String::from_str("<span class=\"chip\">None</span>");
    }
    let mut out = String::new();
    let mut i: usize = 0;
    while i < values.len()
        invariant
            i <= values@.len(),
            views == values@.map_values(|v: String| v@),
            out@ == chip_list_seq(views.take(i as int)),
        decreases values.len() - i,
    {
        out.append("<span class=\"chip\">");
        let escaped = html_escape(values[i].as_str());
        out.append(escaped.as_str());
        out.append("</span>");
        assert(views.take(i + 1).drop_last() =~= views.take(i as int));
        assert(out@ =~= chip_list_seq(views.take(i + 1)));
        i += 1;
    }
    assert(views.take(i as int) =~= views);
    out
}

/// The label of a capture group: its name, or `$` and its index.
pub open spec fn group_label_seq(g: CaptureGroupView) -> Seq<char> {
    match g.name {
        Some(n) => n,
        None => seq!['$'] + decimal_seq(g.index as nat),
    }
}

/// The chip of one capture group: its label and its value.
pub open spec fn group_chip_seq(g: CaptureGroupView) -> Seq<char> {
    "<span class=\"group-chip\"><b>"@ + html_escape_seq(group_label_seq(g)) + "</b><span>"@
        + html_escape_seq(g.value) + "</span></span>"@
}

/// The chips of `groups`, in order.
pub open spec fn group_chips_seq(groups: Seq<CaptureGroupView>) -> Seq<char>
    decreases groups.len(),
{
    if groups.len() == 0 {
        seq![]
    } else {
        group_chips_seq(groups.drop_last()) + group_chip_seq(groups.last())
    }
}

/// The groups cell of a row: nothing when groups are not shown, "None" for
/// a match without groups, else a chip per group.
pub open spec fn groups_cell_seq(groups: Seq<CaptureGroupView>, include_capture_groups: bool) -> Seq<char> {
    if !include_capture_groups {
        seq![]
    } else if groups.len() == 0 {
        "<td class=\"groups\"><span class=\"empty\">None</span></td>"@
    } else {
        "<td class=\"groups\"><div class=\"group-list\">"@ + group_chips_seq(groups)
            + "</div></td>"@
    }
}

/// The label of a capture group.
fn group_label(g: &CaptureGroup) -> (r: String)
    ensures
        r@ == group_label_seq(g@),
{
    match &g.name {
        Some(n) => n.clone(),
        None => {
            let mut s = String::from_str("$");
            let digits = decimal(g.index);
            s.append(digits.as_str());
            proof {
                reveal_strlit("$");
            }
            assert(s@ =~= seq!['$'] + decimal_seq(g.index as nat));
            s
        },
    }
}

/// The groups cell of the row of `record`.
pub fn groups_html(record: &MatchRecord, include_capture_groups: bool) -> (r: String)
    ensures
        r@ == groups_cell_seq(record@.capture_groups, include_capture_groups),
{
    if !include_capture_groups {
        return String::new();
    }
    if record.capture_groups.len() == 0 {
        return String::from_str("<td class=\"groups\"><span class=\"empty\">None</span></td>");
    }
    let ghost views = record@.capture_groups;
    let mut chips = String::new();
    let mut i: usize = 0;
    while i < record.capture_groups.len()
        invariant
            i <= record.capture_groups@.len(),
            views == group_list_views(record.capture_groups@),
            chips@ == group_chips_seq(views.take(i as int)),
        decreases record.capture_groups.len() - i,
    {
        let g = &record.capture_groups[i];
        chips.append("<span class=\"group-chip\"><b>");
        let label = html_escape(group_label(g).as_str());
        chips.append(label.as_str());
        chips.append("</b><span>");
        let value = html_escape(g.value.as_str());
        chips.append(value.as_str());
        chips.append("</span></span>");
        assert(views.take(i + 1).drop_last() =~= views.take(i as int));
        assert(views.take(i + 1).last() == g@);
        assert(chips@ =~= group_chips_seq(views.take(i + 1)));
        i += 1;
    }
    assert(views.take(i as int) =~= views);
    let mut out = String::from_str("<td class=\"groups\"><div class=\"group-list\">");
    out.append(chips.as_str());
    out.append("</div></td>");
    out
}

/// The table row of one match.
pub open spec fn row_seq(r: MatchRecordView, include_capture_groups: bool) -> Seq<char> {
    "<tr><td class=\"path\"><code>"@ + html_escape_seq(r.path) + "</code></td><td><code>"@
        + html_escape_seq(r.pattern) + "</code></td><td class=\"match\">"@ + html_escape_seq(
        r.matched_text,
    ) + "</td>"@ + groups_cell_seq(r.capture_groups, include_capture_groups) + "<td>"@
        + decimal_seq(r.line as nat) + "</td><td>"@ + decimal_seq(r.start_column as nat) + "-"@
        + decimal_seq(r.end_column as nat) + "</td></tr>"@
}

/// The table rows of `records`, in order.
pub open spec fn rows_seq(records: Seq<MatchRecordView>, include_capture_groups: bool) -> Seq<char>
    decreases records.len(),
{
    if records.len() == 0 {
        seq![]
    } else {
        rows_seq(records.drop_last(), include_capture_groups) + row_seq(
            records.last(),
            include_capture_groups,
        )
    }
}

/// The table row of one match.
fn row_html(record: &MatchRecord, include_capture_groups: bool) -> (r: String)
    ensures
        r@ == row_seq(record@, include_capture_groups),
{
    let mut out = String::from_str("<tr><td class=\"path\"><code>");
    out.append(html_escape(record.path.as_str()).as_str());
    out.append("</code></td><td><code>");
    out.append(html_escape(record.pattern.as_str()).as_str());
    out.append("</code></td><td class=\"match\">");
    out.append(html_escape(record.matched_text.as_str()).as_str());
    out.append("</td>");
    out.append(groups_html(record, include_capture_groups).as_str());
    out.append("<td>");
    out.append(decimal(record.line).as_str());
    out.append("</td><td>");
    out.append(decimal(record.start_column).as_str());
    out.append("-");
    out.append(decimal(record.end_column).as_str());
    out.append("</td></tr>");
    assert(out@ =~= row_seq(record@, include_capture_groups));
    out
}

/// The table rows of the report, one per match.
pub fn rows_html(matches: &[MatchRecord], include_capture_groups: bool) -> (r: String)
    ensures
        r@ == rows_seq(record_views(matches@), include_capture_groups),
{
    let ghost views = record_views(matches@);
    let mut out = String::new();
    let mut i: usize = 0;
    while i < matches.len()
        invariant
            i <= matches@.len(),
            views == record_views(matches@),
            out@ == rows_seq(views.take(i as int), include_capture_groups),
        decreases matches.len() - i,
    {
        let record = &matches[i];
        let ghost before = out@;
        out.append(row_html(record, include_capture_groups).as_str());
        assert(out@ =~= before + row_seq(record@, include_capture_groups));
        assert(views.take(i + 1).drop_last() =~= views.take(i as int));
        assert(views.take(i + 1).last() == record@);
        i += 1;
    }
    assert(views.take(i as int) =~= views);
    out
}

/// The chip text of a file type: the type and, in brackets, its count.
pub open spec fn type_chip_text(entry: (Seq<char>, usize)) -> Seq<char> {
    entry.0 + " ("@ + decimal_seq(entry.1 as nat) + ")"@
}

/// The chip text of a failure: the path, a colon and the message.
pub open spec fn error_chip_text(e: (Seq<char>, Seq<char>)) -> Seq<char> {
    e.0 + ": "@ + e.1
}

/// A script element holding JSON: its opening tag, the JSON escaped for a
/// script element, and the closing tag.
pub open spec fn script_data_seq(open_tag: Seq<char>, json: Seq<char>) -> Seq<char> {
    open_tag + script_escape_seq(json) + SCRIPT_CLOSE@
}

/// The page up to the script elements: head, details, summary and table.
pub open spec fn report_body_seq(
    folder: Seq<char>,
    scan_date: Seq<char>,
    patterns: Seq<Seq<char>>,
    file_types: Seq<(Seq<char>, usize)>,
    errors: Seq<(Seq<char>, Seq<char>)>,
    files_scanned: nat,
    affected_files: nat,
    records: Seq<MatchRecordView>,
    include_capture_groups: bool,
) -> Seq<char> {
    REPORT_START@ + html_escape_seq(folder) + REPORT_AFTER_FOLDER@ + html_escape_seq(scan_date)
        + REPORT_AFTER_SCAN_DATE@ + chips_seq(patterns) + REPORT_AFTER_PATTERNS_HTML@ + chips_seq(
        file_types.map_values(|e: (Seq<char>, usize)| type_chip_text(e)),
    ) + REPORT_AFTER_FILE_TYPES_HTML@ + chips_seq(
        errors.map_values(|e: (Seq<char>, Seq<char>)| error_chip_text(e)),
    ) + REPORT_AFTER_ERRORS_HTML@ + decimal_seq(files_scanned) + REPORT_AFTER_FILES_SCANNED@
        + decimal_seq(affected_files) + REPORT_AFTER_AFFECTED_FILES@ + decimal_seq(records.len())
        + REPORT_AFTER_TOTAL_MATCHES@ + decimal_seq(errors.len()) + REPORT_AFTER_ERROR_COUNT@ + (
    if include_capture_groups {
        "<th>Groups</th>"@
    } else {
        seq![]
    }) + REPORT_AFTER_GROUPS_HEADER_HTML@ + rows_seq(records, include_capture_groups)
        + REPORT_AFTER_ROWS_HTML@
}

/// The page after the script elements that hold JSON: the page's own script,
/// told whether capture groups are shown.
pub open spec fn report_tail_seq(include_capture_groups: bool) -> Seq<char> {
    REPORT_AFTER_PATTERNS_JSON@ + (if include_capture_groups {
        "true"@
    } else {
        "false"@
    }) + REPORT_AFTER_INCLUDE_CAPTURE_GROUPS@
}

/// The whole report for the given values: the body, the three script
/// elements holding the matches, the file types and the patterns as JSON,
/// and the page's script.
pub open spec fn report_seq(
    folder: Seq<char>,
    scan_date: Seq<char>,
    patterns: Seq<Seq<char>>,
    file_types: Seq<(Seq<char>, usize)>,
    errors: Seq<(Seq<char>, Seq<char>)>,
    files_scanned: nat,
    affected_files: nat,
    records: Seq<MatchRecordView>,
    include_capture_groups: bool,
    records_json: Seq<char>,
    file_types_json: Seq<char>,
    patterns_json: Seq<char>,
) -> Seq<char> {
    report_body_seq(
        folder,
        scan_date,
        patterns,
        file_types,
        errors,
        files_scanned,
        affected_files,
        records,
        include_capture_groups,
    ) + script_data_seq(ROWS_DATA_OPEN@, records_json) + SCRIPT_GAP@ + script_data_seq(
        FILE_TYPES_DATA_OPEN@,
        file_types_json,
    ) + SCRIPT_GAP@ + script_data_seq(PATTERNS_DATA_OPEN@, patterns_json) + report_tail_seq(
        include_capture_groups,
    )
}

/// The chip texts of a table of file types.
fn type_chips(file_types: &Vec<(String, usize)>) -> (chips: Vec<String>)
    ensures
        texts(chips@) == type_count_views(file_types@).map_values(
            |e: (Seq<char>, usize)| type_chip_text(e),
        ),
{
    let ghost types = type_count_views(file_types@);
    let mut chips: Vec<String> = Vec::new();
    let mut i: usize = 0;
    while i < file_types.len()
        invariant
            i <= file_types@.len(),
            types == type_count_views(file_types@),
            texts(chips@) == types.take(i as int).map_values(
                |e: (Seq<char>, usize)| type_chip_text(e),
            ),
        decreases file_types.len() - i,
    {
        let mut chip = file_types[i].0.clone();
        chip.append(" (");
        chip.append(decimal(file_types[i].1).as_str());
        chip.append(")");
        assert(types[i as int] == (file_types@[i as int].0@, file_types@[i as int].1));
        assert(chip@ =~= type_chip_text(types[i as int]));
        let ghost before = chips@;
        let ghost chip_text = chip@;
        chips.push(chip);
        assert(texts(chips@) =~= texts(before).push(chip_text));
        assert(texts(chips@) =~= types.take(i + 1).map_values(
            |e: (Seq<char>, usize)| type_chip_text(e),
        ));
        i += 1;
    }
    assert(types.take(i as int) =~= types);
    chips
}

/// The chip texts of the failures.
fn error_chip_list(errors: &Vec<FileError>) -> (chips: Vec<String>)
    ensures
        texts(chips@) == error_views(errors@).map_values(
            |e: (Seq<char>, Seq<char>)| error_chip_text(e),
        ),
{
    let ghost errs = error_views(errors@);
    let mut error_chips: Vec<String> = Vec::new();
    let mut k: usize = 0;
    while k < errors.len()
        invariant
            k <= errors@.len(),
            errs == error_views(errors@),
            texts(error_chips@) == errs.take(k as int).map_values(
                |e: (Seq<char>, Seq<char>)| error_chip_text(e),
            ),
        decreases errors.len() - k,
    {
        let mut chip = errors[k].path.clone();
        chip.append(": ");
        chip.append(errors[k].error.as_str());
        assert(chip@ =~= error_chip_text(errs[k as int]));
        let ghost before = error_chips@;
        let ghost chip_text = chip@;
        error_chips.push(chip);
        assert(texts(error_chips@) =~= texts(before).push(chip_text));
        assert(texts(error_chips@) =~= errs.take(k + 1).map_values(
            |e: (Seq<char>, Seq<char>)| error_chip_text(e),
        ));
        k += 1;
    }
    assert(errs.take(k as int) =~= errs);
    error_chips
}

/// The page up to its script elements, for a sweep whose file-type table
/// is `file_types`.
#[verifier::rlimit(30)]
fn render_body(data: &SweepData, file_types: &Vec<(String, usize)>) -> (r: String)
    requires
        type_count_views(file_types@) == file_type_table(record_paths(record_views(data.matches@))),
    ensures
        r@ == report_body_seq(
            data.folder_scanned@,
            data.scan_date_time@,
            texts(data.patterns@),
            file_type_table(record_paths(record_views(data.matches@))),
            error_views(data.errors@),
            data.files_scanned as nat,
            record_paths(record_views(data.matches@)).len(),
            record_views(data.matches@),
            data.include_capture_groups,
        ),
{
    let affected = affected_files(data);
    let chips = type_chips(file_types);
    let error_chips = error_chip_list(&data.errors);
    let mut out = String::from_str(REPORT_START);
    out.append(html_escape(data.folder_scanned.as_str()).as_str());
    out.append(REPORT_AFTER_FOLDER);
    out.append(html_escape(data.scan_date_time.as_str()).as_str());
    out.append(REPORT_AFTER_SCAN_DATE);
    out.append(chips_html(data.patterns.as_slice()).as_str());
    out.append(REPORT_AFTER_PATTERNS_HTML);
    out.append(chips_html(chips.as_slice()).as_str());
    out.append(REPORT_AFTER_FILE_TYPES_HTML);
    out.append(chips_html(error_chips.as_slice()).as_str());
    out.append(REPORT_AFTER_ERRORS_HTML);
    out.append(decimal(data.files_scanned).as_str());
    out.append(REPORT_AFTER_FILES_SCANNED);
    out.append(decimal(affected.len()).as_str());
    out.append(REPORT_AFTER_AFFECTED_FILES);
    out.append(decimal(data.matches.len()).as_str());
    out.append(REPORT_AFTER_TOTAL_MATCHES);
    out.append(decimal(data.errors.len()).as_str());
    out.append(REPORT_AFTER_ERROR_COUNT);
    if data.include_capture_groups {
        out.append("<th>Groups</th>");
    }
    out.append(REPORT_AFTER_GROUPS_HEADER_HTML);
    out.append(rows_html(data.matches.as_slice(), data.include_capture_groups).as_str());
    out.append(REPORT_AFTER_ROWS_HTML);
    assert(record_views(data.matches@).len() == data.matches@.len());
    assert(out@ =~= report_body_seq(
        data.folder_scanned@,
        data.scan_date_time@,
        texts(data.patterns@),
        file_type_table(record_paths(record_views(data.matches@))),
        error_views(data.errors@),
        data.files_scanned as nat,
        record_paths(record_views(data.matches@)).len(),
        record_views(data.matches@),
        data.include_capture_groups,
    ));
    out
}

/// One script element holding JSON, appended to `out`.
fn append_script_data(out: &mut String, open_tag: &str, json: &str)
    ensures
        final(out)@ == old(out)@ + script_data_seq(open_tag@, json@),
{
    out.append(open_tag);
    out.append(json_for_script(json).as_str());
    out.append(SCRIPT_CLOSE);
}

/// The page for a sweep whose file-type table is `file_types`, given the
/// JSON texts of the matches, of the file types and of the patterns.
fn render_report(
    data: &SweepData,
    file_types: &Vec<(String, usize)>,
    records_json: &str,
    file_types_json: &str,
    patterns_json: &str,
) -> (r: String)
    requires
        type_count_views(file_types@) == file_type_table(record_paths(record_views(data.matches@))),
    ensures
        r@ == report_seq(
            data.folder_scanned@,
            data.scan_date_time@,
            texts(data.patterns@),
            file_type_table(record_paths(record_views(data.matches@))),
            error_views(data.errors@),
            data.files_scanned as nat,
            record_paths(record_views(data.matches@)).len(),
            record_views(data.matches@),
            data.include_capture_groups,
            records_json@,
            file_types_json@,
            patterns_json@,
        ),
{
    let mut out = render_body(data, file_types);
    append_script_data(&mut out, ROWS_DATA_OPEN, records_json);
    out.append(SCRIPT_GAP);
    append_script_data(&mut out, FILE_TYPES_DATA_OPEN, file_types_json);
    out.append(SCRIPT_GAP);
    append_script_data(&mut out, PATTERNS_DATA_OPEN, patterns_json);
    out.append(REPORT_AFTER_PATTERNS_JSON);
    if data.include_capture_groups {
        out.append("true");
    } else {
        out.append("false");
    }
    out.append(REPORT_AFTER_INCLUDE_CAPTURE_GROUPS);
    out
}

/// The JSON text that `serde_json::to_string` writes for a list of strings.
pub uninterp spec fn json_string_list(items: Seq<Seq<char>>) -> Seq<char>;

/// The JSON text that `serde_json::to_string` writes for a `BTreeMap` from
/// file type to count holding `entries`, which are in key order.
pub uninterp spec fn json_type_counts(entries: Seq<(Seq<char>, usize)>) -> Seq<char>;

/// Calls `serde_json::to_string` on the list of strings, turning a failure
/// into its `Display` text. Nothing is stated of when it fails.
#[verifier::external_body]
pub(crate) fn strings_json(items: &Vec<String>) -> (r: Result<String, String>)
    ensures
        r matches Ok(s) ==> s@ == json_string_list(texts(items@)),
{
    serde_json::to_string(items).map_err(|e| e.to_string())
}

/// Calls `serde_json::to_string` on a `BTreeMap` from file type to count
/// holding the entries, turning a failure into its `Display` text. The
/// entries are already in key order with no key twice, so the map holds
/// them as they are, in the same order. Nothing is stated of when it fails.
#[verifier::external_body]
pub(crate) fn type_counts_json(entries: &Vec<(String, usize)>) -> (r: Result<String, String>)
    requires
        strictly_sorted(type_keys(type_count_views(entries@))),
    ensures
        r matches Ok(s) ==> s@ == json_type_counts(type_count_views(entries@)),
{
    let map: BTreeMap<&String, usize> = entries.iter().map(|(k, v)| (k, *v)).collect();
    serde_json::to_string(&map).map_err(|e| e.to_string())
}

/// The error message for file types that could not be written as JSON.
pub open spec fn file_types_json_error(error: Seq<char>) -> Seq<char> {
    "Could not serialize file types: "@ + error
}

/// The error message for patterns that could not be written as JSON.
pub open spec fn patterns_json_error(error: Seq<char>) -> Seq<char> {
    "Could not serialize patterns: "@ + error
}

/// The report of a sweep, as a standalone HTML page, with the folder, the
/// time, the patterns, the file types, the errors or inaccessible files and
/// their number, the counts and a row per match.
///
/// `records_json` is the JSON text of the matches. The file types and the
/// patterns are written as JSON here; the three texts are embedded, escaped
/// for a script element, for the page's filters. Where writing the file
/// types, then the patterns, as JSON fails, that failure is the result.
pub fn build_html_report(data: &SweepData, records_json: &str) -> (r: Result<String, String>)
    ensures
        match r {
            Ok(page) => page@ == report_seq(
                data.folder_scanned@,
                data.scan_date_time@,
                texts(data.patterns@),
                file_type_table(record_paths(record_views(data.matches@))),
                error_views(data.errors@),
                data.files_scanned as nat,
                record_paths(record_views(data.matches@)).len(),
                record_views(data.matches@),
                data.include_capture_groups,
                records_json@,
                json_type_counts(file_type_table(record_paths(record_views(data.matches@)))),
                json_string_list(texts(data.patterns@)),
            ),
            Err(m) => exists|e: Seq<char>|
                m@ == file_types_json_error(e) || m@ == patterns_json_error(e),
        },
{
    let file_types = file_type_counts(data);
    assert(strictly_sorted(type_keys(type_count_views(file_types@))));
    let file_types_json = match type_counts_json(&file_types) {
        Ok(j) => j,
        Err(e) => {
            let mut m = String::from_str("Could not serialize file types: ");
            m.append(e.as_str());
            assert(m@ == file_types_json_error(e@));
            return Err(m);
        },
    };
    let patterns_json = match strings_json(&data.patterns) {
        Ok(j) => j,
        Err(e) => {
            let mut m = String::from_str("Could not serialize patterns: ");
            m.append(e.as_str());
            assert(m@ == patterns_json_error(e@));
            return Err(m);
        },
    };
    Ok(render_report(data, &file_types, records_json, file_types_json.as_str(), patterns_json.as_str()))
}

} // verus!
