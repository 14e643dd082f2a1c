use cyclo::estimator::count_function_lines;
use cyclo::estimator::get_file_complexity;
use cyclo::lang::classify;
use cyclo::lang::is_file_extension_valid;
use cyclo::lang::is_hidden;
use cyclo::lang::profile_for;
use cyclo::lang::LanguageTag;

fn lines(v: &[&str]) -> Vec<String> {
    v.iter().map(|s| s.to_string()).collect()
}

#[test]
fn recognized_extensions_pass_the_filter() {
    assert!(is_file_extension_valid("a.c"));
    assert!(is_file_extension_valid("a.cpp"));
    assert!(is_file_extension_valid("a.cc"));
    assert!(is_file_extension_valid("a.cxx"));
    assert!(is_file_extension_valid("script.py"));
    assert!(is_file_extension_valid("app.js"));
}

#[test]
fn unrecognized_extensions_fail_the_filter() {
    assert!(!is_file_extension_valid("x.xyz"));
    assert!(!is_file_extension_valid("c"));
    assert!(!is_file_extension_valid("a.C"));
    assert!(!is_file_extension_valid(""));
    assert!(!is_file_extension_valid("a.rs"));
}

#[test]
fn hidden_names_start_with_a_dot() {
    assert!(is_hidden(".git"));
    assert!(is_hidden("."));
    assert!(!is_hidden("src"));
    assert!(!is_hidden(""));
    assert!(!is_hidden("a.hidden"));
}

#[test]
fn classify_maps_the_last_extension() {
    assert_eq!(classify("a.c"), Some(LanguageTag::C));
    assert_eq!(classify("a.cc"), Some(LanguageTag::Cpp));
    assert_eq!(classify("a.cxx"), Some(LanguageTag::Cpp));
    assert_eq!(classify("a.cpp"), Some(LanguageTag::Cpp));
    assert_eq!(classify("a.py"), Some(LanguageTag::Python));
    assert_eq!(classify("a.js"), Some(LanguageTag::JavaScript));
    assert_eq!(classify("a.tar.c"), Some(LanguageTag::C));
    assert_eq!(classify("a.xyz"), None);
    assert_eq!(classify("noext"), None);
    assert_eq!(classify("trailing."), None);
}

#[test]
fn c_profile_markers() {
    let p = profile_for(LanguageTag::C);
    assert_eq!(p.comments, vec!["//", "/*", "*/", "*", "///"]);
    assert_eq!(
        p.statements,
        vec!["if(", "if (", "for(", "for (", "while(", "while (", "switch", "break", "goto"]
    );
    assert_eq!(p.logical_ops, vec!["&&", "||"]);
    assert_eq!(p.function_def, "return");
}

#[test]
fn python_profile_markers() {
    let p = profile_for(LanguageTag::Python);
    assert_eq!(p.comments, vec!["#"]);
    assert_eq!(p.statements, vec!["if", "for", "while", "break"]);
    assert_eq!(p.logical_ops, vec!["and", "or", "not"]);
    assert_eq!(p.function_def, "def ");
}

#[test]
fn c_complexity_counts_statements_and_operators() {
    let p = profile_for(LanguageTag::C);
    let content = lines(&[
        "if (a && b) { return x; }",
        "// if (x)",
        "while (a || b)",
        "int y = 0;",
    ]);
    // two statement lines, one operator each; the comment line is dropped
    assert_eq!(get_file_complexity(&content, &p), 4);
    // only the first line holds the function marker "return"
    assert_eq!(count_function_lines(&content, &p), 1);
}

#[test]
fn comment_marker_discards_whole_line() {
    let p = profile_for(LanguageTag::C);
    let content = lines(&["if (a && b) { /* hot path */ }"]);
    // the line holds a comment marker, so nothing on it is counted
    assert_eq!(get_file_complexity(&content, &p), 0);
}

#[test]
fn python_operator_markers_match_inside_words() {
    let p = profile_for(LanguageTag::Python);
    let content = lines(&["if x and y:", "w = nothing"]);
    // line one: statement plus one operator; line two: "nothing" holds "not"
    assert_eq!(get_file_complexity(&content, &p), 3);
}

#[test]
fn empty_file_scores_zero() {
    let p = profile_for(LanguageTag::JavaScript);
    let content: Vec<String> = Vec::new();
    assert_eq!(get_file_complexity(&content, &p), 0);
    assert_eq!(count_function_lines(&content, &p), 0);
}
