use regex_sweep::records::{CaptureGroup, FileError, MatchRecord};
use regex_sweep::report::{build_html_report, chips_html, groups_html, html_escape, json_for_script, rows_html};
use regex_sweep::summary::{affected_files, file_type_counts, file_type_of, sweep_result, SweepData};

fn record(path: &str, groups: Vec<CaptureGroup>) -> MatchRecord {
    MatchRecord {
        path: path.to_string(),
        pattern: "a<b".to_string(),
        matched_text: "x&y".to_string(),
        line: 3,
        start_column: 5,
        end_column: 12,
        capture_groups: groups,
    }
}

fn data(paths: &[&str], include_capture_groups: bool) -> SweepData {
    SweepData {
        folder_scanned: "/tmp/<dir>".to_string(),
        scan_date_time: "2024-01-02 03:04:05 +00:00".to_string(),
        patterns: vec!["a<b".to_string()],
        matches: paths.iter().map(|p| record(p, Vec::new())).collect(),
        files_scanned: 3,
        errors: vec![FileError { path: "x".to_string(), error: "denied".to_string() }],
        include_capture_groups,
    }
}

#[test]
fn html_escape_replaces_the_five_special_characters() {
    assert_eq!(html_escape("<a href='x'>&\"ok"), "&lt;a href=&#39;x&#39;&gt;&amp;&quot;ok");
    assert_eq!(html_escape("&amp;"), "&amp;amp;");
    assert_eq!(html_escape(""), "");
}

#[test]
fn html_escape_output_holds_no_markup_characters() {
    let escaped = html_escape("<<>>\"\"''&&<script>");
    assert!(!escaped.contains('<') && !escaped.contains('>'));
    assert!(!escaped.contains('"') && !escaped.contains('\''));
}

#[test]
fn json_for_script_escapes_markup_characters() {
    assert_eq!(json_for_script("[\"</script>&\"]"), "[\"\\u003c/script\\u003e\\u0026\"]");
    let escaped = json_for_script("<>&<>&");
    assert!(!escaped.contains('<') && !escaped.contains('>') && !escaped.contains('&'));
}

#[test]
fn chips_show_none_when_empty() {
    assert_eq!(chips_html(&[]), "<span class=\"chip\">None</span>");
    assert_eq!(
        chips_html(&["a<b".to_string(), "c".to_string()]),
        "<span class=\"chip\">a&lt;b</span><span class=\"chip\">c</span>"
    );
}

#[test]
fn group_cells_follow_the_capture_setting() {
    let plain = record("p", Vec::new());
    assert_eq!(groups_html(&plain, false), "");
    assert_eq!(groups_html(&plain, true), "<td class=\"groups\"><span class=\"empty\">None</span></td>");
    let grouped = record(
        "p",
        vec![
            CaptureGroup { index: 1, name: Some("first".to_string()), value: "J&".to_string(), start_column: 1, end_column: 3 },
            CaptureGroup { index: 12, name: None, value: "S".to_string(), start_column: 4, end_column: 5 },
        ],
    );
    assert_eq!(
        groups_html(&grouped, true),
        "<td class=\"groups\"><div class=\"group-list\"><span class=\"group-chip\"><b>first</b><span>J&amp;</span></span><span class=\"group-chip\"><b>$12</b><span>S</span></span></div></td>"
    );
}

#[test]
fn rows_render_each_record() {
    let rows = rows_html(&[record("d/<f>.txt", Vec::new())], false);
    assert_eq!(
        rows,
        "<tr><td class=\"path\"><code>d/&lt;f&gt;.txt</code></td><td><code>a&lt;b</code></td><td class=\"match\">x&amp;y</td><td>3</td><td>5-12</td></tr>"
    );
    assert_eq!(rows_html(&[], true), "");
}

#[test]
fn affected_files_are_sorted_and_distinct() {
    let d = data(&["b.txt", "a.txt", "b.txt", "B.txt"], false);
    assert_eq!(affected_files(&d), vec!["B.txt".to_string(), "a.txt".to_string(), "b.txt".to_string()]);
    assert!(affected_files(&d).len() <= d.matches.len());
}

#[test]
fn file_types_are_counted_per_affected_file() {
    let d = data(&["x.TXT", "y.txt", "y.txt", "README", "dir/z.Rs"], false);
    let counts = file_type_counts(&d);
    assert_eq!(
        counts,
        vec![(".rs".to_string(), 1), (".txt".to_string(), 2), ("No extension".to_string(), 1)]
    );
    let total: usize = counts.iter().map(|(_, n)| n).sum();
    assert_eq!(total, affected_files(&d).len());
}

#[test]
fn file_type_labels_use_unicode_lowercase() {
    assert_eq!(file_type_of("a.ÄB"), ".äb");
    assert_eq!(file_type_of("Makefile"), "No extension");
    assert_eq!(file_type_of(".hidden"), "No extension");
}

#[test]
fn sweep_result_summarises_the_data() {
    let d = data(&["a", "b", "a"], false);
    let r = sweep_result("out.json".to_string(), &d, "JSON");
    assert_eq!(r.output_path, "out.json");
    assert_eq!(r.matches_written, 3);
    assert_eq!(r.files_scanned, 3);
    assert_eq!(r.files_skipped, 1);
    assert_eq!(r.errors_count, 1);
    assert_eq!(r.affected_files, 2);
    assert_eq!(r.export_type, "JSON");
}

#[test]
fn report_embeds_escaped_values() {
    let d = data(&["a.txt", "a.txt", "b.md"], true);
    let html = build_html_report(&d, "[{\"m\":\"</script>\"}]").unwrap();
    assert!(html.starts_with("<!doctype html>\n<html lang=\"en\">"));
    assert!(html.ends_with("</html>"));
    assert!(html.contains("<span>Folder scanned</span><code>/tmp/&lt;dir&gt;</code>"));
    assert!(html.contains("<span>Files scanned</span><strong>3</strong>"));
    assert!(html.contains("<span>Affected files</span><strong>2</strong>"));
    assert!(html.contains("<span>Total matches</span><strong>3</strong>"));
    assert!(html.contains("<th>Match</th><th>Groups</th><th>Line</th>"));
    assert!(html.contains("<span class=\"chip\">.md (1)</span><span class=\"chip\">.txt (1)</span>"));
    assert!(html.contains("id=\"rows-data\">[{\"m\":\"\\u003c/script\\u003e\"}]</script>"));
    assert!(html.contains("const includeCaptureGroups = true;"));
    assert!(html.contains("id=\"file-types-data\">{\".md\":1,\".txt\":1}</script>"));
    assert!(html.contains("id=\"patterns-data\">[\"a\\u003cb\"]</script>"));
    assert!(html.contains("<div class=\"logo\">{}</div>"));
    assert!(html.contains("<td class=\"groups\"><span class=\"empty\">None</span></td>"));
    assert!(html.contains("<span>Errors or inaccessible files</span><div class=\"chips\" id=\"errors\"><span class=\"chip\">x: denied</span></div>"));
    assert!(html.contains("<span>Errors</span><strong>1</strong>"));
}

#[test]
fn report_lists_each_error_escaped() {
    let mut d = data(&[], false);
    d.errors.push(FileError { path: "a<b>.txt".to_string(), error: "bad & worse".to_string() });
    let html = build_html_report(&d, "[]").unwrap();
    assert!(html.contains("<span class=\"chip\">x: denied</span><span class=\"chip\">a&lt;b&gt;.txt: bad &amp; worse</span>"));
    assert!(html.contains("<span>Errors</span><strong>2</strong>"));
}

#[test]
fn report_without_errors_says_none() {
    let mut d = data(&["a"], false);
    d.errors.clear();
    let html = build_html_report(&d, "[]").unwrap();
    assert!(html.contains("id=\"errors\"><span class=\"chip\">None</span></div>"));
    assert!(html.contains("<span>Errors</span><strong>0</strong>"));
}

#[test]
fn report_without_groups_has_no_groups_column() {
    let d = data(&[], false);
    let html = build_html_report(&d, "[]").unwrap();
    assert!(html.contains("<th>Match</th><th>Line</th>"));
    assert!(html.contains("const includeCaptureGroups = false;"));
    assert!(html.contains("<div class=\"chips\" id=\"fileTypes\"><span class=\"chip\">None</span></div>"));
    assert!(html.contains("<tbody id=\"rows\"></tbody>"));
    assert!(html.contains("id=\"file-types-data\">{}</script>"));
}

#[test]
fn different_texts_escape_differently() {
    let texts = ["&lt;", "<", "&", "&amp;", "'", "&#39;", "\"", "&quot;", ">", "&gt;", ""];
    for (i, a) in texts.iter().enumerate() {
        for (j, b) in texts.iter().enumerate() {
            assert_eq!(i == j, html_escape(a) == html_escape(b), "{a:?} {b:?}");
        }
    }
}
