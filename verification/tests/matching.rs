use regex_sweep::patterns::compile_patterns;
use regex_sweep::records::collect_matches;

#[test]
fn capture_groups_are_included_when_enabled() {
    let patterns = compile_patterns(
        &[r"First_Name: (?<first>\w+), Last_Name: (?<last>\w+)".to_string()],
        false,
    )
    .expect("pattern should compile");
    let mut records = Vec::new();

    collect_matches(
        "people.txt",
        "",
        "First_Name: Jane, Last_Name: Smith",
        &patterns,
        true,
        &mut records,
    );

    assert_eq!(records.len(), 1);
    assert_eq!(
        records[0].matched_text,
        "First_Name: Jane, Last_Name: Smith"
    );
    assert_eq!(records[0].capture_groups.len(), 2);
    assert_eq!(records[0].capture_groups[0].name.as_deref(), Some("first"));
    assert_eq!(records[0].capture_groups[0].value, "Jane");
    assert_eq!(records[0].capture_groups[1].name.as_deref(), Some("last"));
    assert_eq!(records[0].capture_groups[1].value, "Smith");
}

#[test]
fn matches_carry_line_and_byte_columns_from_one() {
    let patterns = compile_patterns(&["foo".to_string()], false).unwrap();
    let mut records = Vec::new();
    collect_matches("/w/a.txt", "/w", "x\nfoo bar foo\r\n", &patterns, false, &mut records);
    assert_eq!(records.len(), 2);
    assert_eq!(records[0].path, "a.txt");
    assert_eq!(records[0].pattern, "foo");
    assert_eq!(records[0].line, 2);
    assert_eq!((records[0].start_column, records[0].end_column), (1, 4));
    assert_eq!((records[1].start_column, records[1].end_column), (9, 12));
    assert!(records[0].capture_groups.is_empty());
    assert!(records[1].capture_groups.is_empty());
}

#[test]
fn columns_count_bytes_not_characters() {
    let patterns = compile_patterns(&["b".to_string()], false).unwrap();
    let mut records = Vec::new();
    collect_matches("f", "", "äb", &patterns, false, &mut records);
    assert_eq!(records.len(), 1);
    assert_eq!((records[0].start_column, records[0].end_column), (3, 4));
    assert_eq!(records[0].matched_text, "b");
}

#[test]
fn records_follow_lines_then_patterns_and_keep_earlier_records() {
    let patterns = compile_patterns(&["b".to_string(), "a".to_string()], false).unwrap();
    let mut records = Vec::new();
    collect_matches("one", "", "a", &patterns, false, &mut records);
    collect_matches("two", "", "ab\nba", &patterns, false, &mut records);
    let seen: Vec<(String, usize, String)> = records
        .iter()
        .map(|r| (r.path.clone(), r.line, r.pattern.clone()))
        .collect();
    assert_eq!(
        seen,
        vec![
            ("one".to_string(), 1, "a".to_string()),
            ("two".to_string(), 1, "b".to_string()),
            ("two".to_string(), 1, "a".to_string()),
            ("two".to_string(), 2, "b".to_string()),
            ("two".to_string(), 2, "a".to_string()),
        ]
    );
}

#[test]
fn unnamed_and_unmatched_groups() {
    let patterns = compile_patterns(&[r"(\d+)(x)?(?<tail>z)".to_string()], false).unwrap();
    let mut records = Vec::new();
    collect_matches("f", "", "12z", &patterns, true, &mut records);
    assert_eq!(records.len(), 1);
    let groups = &records[0].capture_groups;
    assert_eq!(groups.len(), 2);
    assert_eq!(groups[0].index, 1);
    assert_eq!(groups[0].name, None);
    assert_eq!(groups[0].value, "12");
    assert_eq!((groups[0].start_column, groups[0].end_column), (1, 3));
    assert_eq!(groups[1].index, 3);
    assert_eq!(groups[1].name.as_deref(), Some("tail"));
}

#[test]
fn capture_mode_without_groups_keeps_whole_matches() {
    let patterns = compile_patterns(&["o".to_string()], false).unwrap();
    let mut records = Vec::new();
    collect_matches("f", "", "foo", &patterns, true, &mut records);
    assert_eq!(records.len(), 2);
    assert!(records.iter().all(|r| r.capture_groups.is_empty()));
}

#[test]
fn ignore_case_applies_to_matching() {
    let strict = compile_patterns(&["abc".to_string()], false).unwrap();
    let loose = compile_patterns(&["abc".to_string()], true).unwrap();
    let mut a = Vec::new();
    let mut b = Vec::new();
    collect_matches("f", "", "ABC abc", &strict, false, &mut a);
    collect_matches("f", "", "ABC abc", &loose, false, &mut b);
    assert_eq!(a.len(), 1);
    assert_eq!(b.len(), 2);
    assert_eq!(b[0].matched_text, "ABC");
}

#[test]
fn blank_patterns_are_dropped_and_others_trimmed() {
    let patterns =
        compile_patterns(&["  ".to_string(), " a+ ".to_string(), "".to_string()], false).unwrap();
    assert_eq!(patterns.len(), 1);
    assert_eq!(patterns[0].source(), "a+");
}

#[test]
fn the_first_invalid_pattern_is_reported() {
    let err = match compile_patterns(&["ok".to_string(), " (a ".to_string(), "[".to_string()], false) {
        Ok(_) => panic!("pattern should not compile"),
        Err(e) => e,
    };
    assert!(err.starts_with("Invalid regex \"(a\": "), "{err}");
    assert!(err.len() > "Invalid regex \"(a\": ".len());
}

#[test]
fn empty_content_gives_no_records() {
    let patterns = compile_patterns(&["x*".to_string()], false).unwrap();
    let mut records = Vec::new();
    collect_matches("f", "", "", &patterns, false, &mut records);
    assert!(records.is_empty());
}

#[test]
fn capture_mode_only_adds_groups() {
    let patterns = compile_patterns(&[r"(\w)(\d)?".to_string(), "z+".to_string()], true).unwrap();
    let content = "a1 b zz\nZ c";
    let mut plain = Vec::new();
    let mut grouped = Vec::new();
    collect_matches("f", "", content, &patterns, false, &mut plain);
    collect_matches("f", "", content, &patterns, true, &mut grouped);
    assert_eq!(plain.len(), grouped.len());
    for (p, g) in plain.iter().zip(grouped.iter()) {
        assert_eq!(
            (&p.path, &p.pattern, &p.matched_text, p.line, p.start_column, p.end_column),
            (&g.path, &g.pattern, &g.matched_text, g.line, g.start_column, g.end_column)
        );
        assert!(p.capture_groups.is_empty());
    }
}
