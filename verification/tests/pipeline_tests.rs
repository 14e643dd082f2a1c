use cyclo::aggregate::aggregate;
use cyclo::aggregate::ConsistencyViolation;
use cyclo::hierarchy::build_node_set;
use cyclo::hierarchy::AnalyzedFile;
use cyclo::hierarchy::NodeSet;
use cyclo::parser::FileParser;
use cyclo::parser::FileParserError;
use cyclo::paths::join_range;
use cyclo::paths::split_slash;
use cyclo::pipeline::process_entry;

fn lines(v: &[&str]) -> Vec<String> {
    v.iter().map(|s| s.to_string()).collect()
}

fn strings(v: &[&str]) -> Vec<String> {
    v.iter().map(|s| s.to_string()).collect()
}

fn nodes_of(ns: &NodeSet) -> Vec<(String, String, u64, u64)> {
    let mut out = Vec::new();
    for i in 0..ns.len() {
        out.push((
            ns.label_at(i).clone(),
            ns.parent_at(i).clone(),
            ns.cc_at(i),
            ns.nloc_at(i),
        ));
    }
    out
}

/// Ten statement lines of C score complexity ten.
fn c_file_scoring_ten() -> Vec<String> {
    lines(&[
        "if (a) {", "if (b) {", "if (c) {", "if (d) {", "if (e) {", "if (f) {", "if (g) {",
        "if (h) {", "if (i) {", "if (j) {",
    ])
}

/// Four statement lines of Python score complexity four.
fn py_file_scoring_four() -> Vec<String> {
    lines(&["if a:", "if b:", "if c:", "if d:"])
}

#[test]
fn split_and_join_paths() {
    assert_eq!(split_slash("proj/sub/b.py"), strings(&["proj", "sub", "b.py"]));
    assert_eq!(split_slash(""), strings(&[""]));
    assert_eq!(split_slash("/a"), strings(&["", "a"]));
    assert_eq!(split_slash("a/"), strings(&["a", ""]));
    let parts = strings(&["proj", "sub", "b.py"]);
    assert_eq!(join_range(&parts, 0, 3), "proj/sub/b.py");
    assert_eq!(join_range(&parts, 0, 2), "proj/sub");
    assert_eq!(join_range(&parts, 1, 2), "sub");
    assert_eq!(join_range(&parts, 0, 0), "");
}

#[test]
fn file_walk_fills_label_parent_and_scores() {
    let mut fp = FileParser::new("proj/a.c", 1);
    assert_eq!(fp.filename, "a.c");
    let r = fp.file_walk(&c_file_scoring_ten(), Some(100));
    assert!(r.is_ok());
    assert_eq!(fp.cc, Some(10));
    assert_eq!(fp.nloc, Some(100));
    assert_eq!(fp.label.as_deref(), Some("proj/a.c"));
    assert_eq!(fp.parent.as_deref(), Some("proj"));
}

#[test]
fn file_walk_depth_zero_has_empty_parent() {
    let mut fp = FileParser::new("top.py", 0);
    let r = fp.file_walk(&py_file_scoring_four(), Some(4));
    assert!(r.is_ok());
    assert_eq!(fp.label.as_deref(), Some("top.py"));
    assert_eq!(fp.parent.as_deref(), Some(""));
}

#[test]
fn file_walk_rejects_unknown_extension() {
    let mut fp = FileParser::new("strange", 0);
    let r = fp.file_walk(&lines(&["if (x)"]), Some(1));
    match r {
        Err(FileParserError::BadFileExtension { file }) => assert_eq!(file, "strange"),
        _ => panic!("expected a bad-extension error"),
    }
    assert_eq!(fp.cc, None);
}

#[test]
fn file_walk_reports_missing_statistics() {
    let mut fp = FileParser::new("proj/a.c", 1);
    let r = fp.file_walk(&c_file_scoring_ten(), None);
    match r {
        Err(FileParserError::StatisticsUnavailable { file }) => assert_eq!(file, "a.c"),
        _ => panic!("expected a statistics error"),
    }
    // the complexity had already been scored when the count came back missing
    assert_eq!(fp.cc, Some(10));
    assert_eq!(fp.nloc, None);
}

#[test]
fn two_files_build_the_expected_node_set() {
    let mut ns = NodeSet::new();
    let r1 = process_entry(&mut ns, "proj/a.c", 1, &c_file_scoring_ten(), Some(100));
    assert!(matches!(r1, Ok(true)));
    let r2 = process_entry(&mut ns, "proj/sub/b.py", 2, &py_file_scoring_four(), Some(40));
    assert!(matches!(r2, Ok(true)));

    let got = nodes_of(&ns);
    let expect = vec![
        ("proj".to_string(), "".to_string(), 0u64, 0u64),
        ("proj/a.c".to_string(), "proj".to_string(), 10, 100),
        ("proj/sub".to_string(), "proj".to_string(), 0, 0),
        ("proj/sub/b.py".to_string(), "proj/sub".to_string(), 4, 40),
    ];
    assert_eq!(got, expect);
}

#[test]
fn unrecognized_entry_produces_no_node() {
    let mut ns = NodeSet::new();
    let r = process_entry(&mut ns, "proj/x.xyz", 1, &lines(&["if (x)"]), Some(3));
    assert!(matches!(r, Ok(false)));
    assert_eq!(ns.len(), 0);
    // the run completes normally for the remaining files
    let r2 = process_entry(&mut ns, "proj/a.c", 1, &c_file_scoring_ten(), Some(100));
    assert!(matches!(r2, Ok(true)));
    assert_eq!(ns.len(), 2);
}

#[test]
fn duplicate_directories_are_inserted_once() {
    let mut ns = NodeSet::new();
    let a = process_entry(&mut ns, "proj/sub/a.c", 2, &c_file_scoring_ten(), Some(1));
    let b = process_entry(&mut ns, "proj/sub/b.c", 2, &c_file_scoring_ten(), Some(2));
    assert!(matches!(a, Ok(true)));
    assert!(matches!(b, Ok(true)));
    // proj, proj/sub, and the two files: the shared ancestors appear once
    assert_eq!(ns.len(), 4);
    assert!(ns.contains_label("proj"));
    assert!(ns.contains_label("proj/sub"));
    assert!(ns.contains_label("proj/sub/a.c"));
    assert!(ns.contains_label("proj/sub/b.c"));
}

#[test]
fn processing_order_does_not_change_the_node_set() {
    let a = AnalyzedFile { components: strings(&["proj", "a.c"]), cc: 10, nloc: 100 };
    let b = AnalyzedFile { components: strings(&["proj", "sub", "b.py"]), cc: 4, nloc: 40 };
    let a2 = AnalyzedFile { components: strings(&["proj", "a.c"]), cc: 10, nloc: 100 };
    let b2 = AnalyzedFile { components: strings(&["proj", "sub", "b.py"]), cc: 4, nloc: 40 };

    let ns1 = build_node_set(&vec![a, b]);
    let ns2 = build_node_set(&vec![b2, a2]);

    let mut s1 = nodes_of(&ns1);
    let mut s2 = nodes_of(&ns2);
    assert_ne!(s1, s2); // insertion order differs
    s1.sort();
    s2.sort();
    assert_eq!(s1, s2); // the unordered collections are equal
}

#[test]
fn aggregate_computes_the_complexity_total() {
    let mut ns = NodeSet::new();
    let r1 = process_entry(&mut ns, "proj/a.c", 1, &c_file_scoring_ten(), Some(100));
    let r2 = process_entry(&mut ns, "proj/sub/b.py", 2, &py_file_scoring_four(), Some(40));
    assert!(matches!(r1, Ok(true)));
    assert!(matches!(r2, Ok(true)));
    let (nlocs, ccs, labels, parents) = ns.extract();
    let out = aggregate(nlocs, ccs, labels, parents).unwrap();
    assert_eq!(out.count, 4);
    assert_eq!(out.cc_total, 14);
    // the mean over files and synthetic directories alike
    let mean = out.cc_total as f64 / out.count as f64;
    assert_eq!(mean, 3.5);
    // every node has a non-negative line count and complexity
    assert!(out.nlocs.iter().all(|&n| n >= 0));
    assert!(out.ccs.iter().all(|&c| c >= 0));
}

#[test]
fn empty_node_set_aborts_the_run() {
    let ns = NodeSet::new();
    let (nlocs, ccs, labels, parents) = ns.extract();
    let r = aggregate(nlocs, ccs, labels, parents);
    assert!(matches!(r, Err(ConsistencyViolation::EmptyNodeSet)));
}

#[test]
fn mismatched_arrays_abort_the_run() {
    let r = aggregate(vec![1, 2], vec![3], vec!["a".to_string()], vec!["".to_string()]);
    assert!(matches!(r, Err(ConsistencyViolation::LengthMismatch)));
}
