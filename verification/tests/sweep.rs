use regex_sweep::globs::{compile_glob, matches_glob};
use regex_sweep::paths::{comparable_path, display_path, output_parent, validate_output_path};
use regex_sweep::sweep::{
    check_import_path, import_result, plan_sweep, sweep_output_target, sweep_root, FileRead,
    SweepProgress, SweepRequest,
};

fn request(patterns: &[&str], glob: Option<&str>) -> SweepRequest {
    SweepRequest {
        patterns: patterns.iter().map(|p| p.to_string()).collect(),
        folder: "  /work  ".to_string(),
        output_path: " /work/out.html ".to_string(),
        include_hidden: false,
        ignore_case: false,
        include_capture_groups: false,
        glob: glob.map(|g| g.to_string()),
    }
}

fn plan_error(req: &SweepRequest, root_is_dir: bool) -> String {
    match plan_sweep(req, root_is_dir, "/work/out.html".to_string()) {
        Ok(_) => panic!("the request should be refused"),
        Err(e) => e,
    }
}

#[test]
fn requests_are_trimmed() {
    let req = request(&["a"], None);
    assert_eq!(sweep_root(&req), "/work");
    assert_eq!(sweep_output_target(&req), "/work/out.html");
}

#[test]
fn refused_requests_say_why_in_order() {
    assert_eq!(plan_error(&request(&["("], None), false), "Choose a folder that exists before exporting.");
    assert!(plan_error(&request(&["a", "("], Some("[")), true).starts_with("Invalid regex \"(\": "));
    assert_eq!(
        plan_error(&request(&[" ", ""], Some("[")), true),
        "Add at least one regex pattern before exporting."
    );
    assert!(plan_error(&request(&["a"], Some(" !a[ ")), true).starts_with("Invalid file glob \"!a[\": "));
}

#[test]
fn a_sweep_reads_files_and_gathers_records() {
    let req = request(&["needle"], Some("*.txt"));
    let plan = match plan_sweep(&req, true, "/work/out.html".to_string()) {
        Ok(p) => p,
        Err(e) => panic!("{e}"),
    };
    assert!(!plan.should_read("/work/out.html", "/work/out.html", true));
    assert!(!plan.should_read("/work/out.html", "/work//out.html", true));
    assert!(!plan.should_read("/work/a.txt", "/work/a.txt", false));
    assert!(!plan.should_read("/work/a.md", "/work/a.md", true));
    assert!(plan.should_read("/work/a.txt", "/work/a.txt", true));
    assert!(plan.should_read("/work/sub/b.txt", "/work/sub/b.txt", true));

    let mut progress = SweepProgress::new();
    progress.record_walk_error("loop detected".to_string());
    plan.accept_file(&mut progress, "/work/a.txt", "/work/a.txt", FileRead::Text("a needle\nneedle".to_string()));
    plan.accept_file(&mut progress, "/work/c.txt", "/work/c.txt", FileRead::NotUtf8);
    plan.accept_file(&mut progress, "/work/d.txt", "/work/d.txt", FileRead::Failed("permission denied".to_string()));
    assert_eq!(progress.files_scanned(), 1);
    assert_eq!(progress.records().len(), 2);
    assert_eq!(progress.records()[0].path, "a.txt");
    assert_eq!((progress.records()[1].line, progress.records()[1].start_column), (2, 1));
    assert_eq!(progress.errors().len(), 2);
    assert_eq!(progress.errors()[0].path, "Unknown path");
    assert_eq!(progress.errors()[0].error, "loop detected");
    assert_eq!(progress.errors()[1].path, "d.txt");
    assert_eq!(progress.errors()[1].error, "permission denied");

    let data = plan.finish(progress, "today".to_string());
    assert_eq!(data.folder_scanned, "/work");
    assert_eq!(data.scan_date_time, "today");
    assert_eq!(data.patterns, vec!["needle".to_string()]);
    assert_eq!(data.matches.len(), 2);
    assert_eq!(data.files_scanned, 1);
    assert_eq!(data.errors.len(), 2);
    assert!(!data.include_capture_groups);
}

#[test]
fn binary_files_are_never_read() {
    let plan = match plan_sweep(&request(&["x"], None), true, "o".to_string()) {
        Ok(p) => p,
        Err(e) => panic!("{e}"),
    };
    assert!(!plan.should_read("/work/pic.JPG", "/work/pic.JPG", true));
    assert!(plan.should_read("/work/notes", "/work/notes", true));
}

#[test]
fn globs_limit_or_exclude_files() {
    assert!(compile_glob(None).unwrap().is_none());
    assert!(compile_glob(Some("   ")).unwrap().is_none());
    let only_rs = compile_glob(Some(" *.rs ")).unwrap().unwrap();
    let exclude = compile_glob(Some("!*.rs")).unwrap().unwrap();
    let deep = compile_glob(Some("!node_modules/**")).unwrap().unwrap();
    for (path, hit) in [("/p/src/main.rs", true), ("/p/README.md", false), ("/p/a.rs.txt", false)] {
        assert_eq!(matches_glob(path, "/p", Some(&only_rs)), hit, "{path}");
        assert_eq!(matches_glob(path, "/p", Some(&exclude)), !hit, "{path}");
        assert!(matches_glob(path, "/p", None));
    }
    assert!(!matches_glob("/p/node_modules/x/y.js", "/p", Some(&deep)));
    assert!(matches_glob("/p/src/y.js", "/p", Some(&deep)));
}

#[test]
fn deeply_nested_glob_is_refused_not_a_panic() {
    let depth = 300;
    let glob = format!("{}a{}", "{".repeat(depth), "}".repeat(depth));
    match compile_glob(Some(&glob)) {
        Ok(_) => panic!("a glob nested this deeply cannot be matched"),
        Err(e) => assert!(e.starts_with("Invalid file glob \"{{{"), "{e}"),
    }
}

#[test]
fn invalid_glob_is_reported_with_its_text() {
    match compile_glob(Some(" a[ ")) {
        Ok(_) => panic!("glob should not parse"),
        Err(e) => assert!(e.starts_with("Invalid file glob \"a[\": ") && e.len() > 22, "{e}"),
    }
}

#[test]
fn paths_are_shown_relative_to_the_folder() {
    assert_eq!(display_path("/root/dir/a.txt", "/root/dir"), "a.txt");
    assert_eq!(display_path("/elsewhere/a.txt", "/root/dir"), "/elsewhere/a.txt");
    assert_eq!(display_path("people.txt", ""), "people.txt");
}

#[test]
fn comparable_path_prefers_the_canonical_form() {
    assert_eq!(comparable_path("a/../b", Some("/x/b".to_string())), "/x/b");
    assert_eq!(comparable_path("a/../b", None), "a/../b");
}

#[test]
fn output_path_must_be_in_an_existing_folder() {
    assert_eq!(output_parent(" /no/such/report.html "), Some("/no/such".to_string()));
    assert_eq!(output_parent("report.html"), Some(String::new()));
    assert_eq!(
        validate_output_path(" /no/such/report.html ", false),
        Err("Choose an output location inside an existing folder.".to_string())
    );
    assert_eq!(validate_output_path(" /tmp/report.html ", true), Ok("/tmp/report.html".to_string()));
    assert_eq!(validate_output_path("report.html", false), Ok("report.html".to_string()));
}

#[test]
fn imports_check_the_file_and_its_text() {
    assert_eq!(check_import_path(" notes.txt ", true), Ok("notes.txt".to_string()));
    assert_eq!(check_import_path("notes.txt", false), Err("Choose a text file that exists.".to_string()));
    assert_eq!(check_import_path("scan.PDF", true), Err("Choose a text file to import.".to_string()));
    assert_eq!(import_result(FileRead::Text("abc".to_string())), Ok("abc".to_string()));
    assert_eq!(import_result(FileRead::NotUtf8), Err("Choose a UTF-8 text file to import.".to_string()));
    assert_eq!(
        import_result(FileRead::Failed("gone".to_string())),
        Err("Could not read text file: gone".to_string())
    );
}
