use unison_editor::json::parse_json;
use unison_editor::mcp_client::TestResult;
use unison_editor::tool_output::{
    parse_run_function_output, parse_run_tests_line, parse_run_tests_output, parse_ucm_output,
    run_summary, tests_summary, update_summary,
};
use unison_editor::typecheck_output::{
    lines_of_messages, parse_test_result, parse_typecheck_output, parse_watch_result, scan_output,
    typecheck_summary,
};

fn shown(t: Option<TestResult>) -> Option<(String, bool, String)> {
    t.map(|t| (t.name, t.passed, t.message))
}

fn test(name: &str, passed: bool, message: &str) -> Option<(String, bool, String)> {
    Some((name.to_string(), passed, message.to_string()))
}

fn chars(s: &str) -> Vec<char> {
    s.chars().collect()
}

#[test]
fn run_tests_line_gives_the_name_between_number_and_mark() {
    assert_eq!(shown(parse_run_tests_line("1. myPassingTest \u{2713} passing", true)), test("myPassingTest", true, "Passed"));
    assert_eq!(shown(parse_run_tests_line("2. myFailingTest \u{2717} failing", false)), test("myFailingTest", false, "Failed"));
    assert_eq!(shown(parse_run_tests_line("   12. lib.tests.a   \u{2713}", true)), test("lib.tests.a", true, "Passed"));
    assert_eq!(shown(parse_run_tests_line("noNumber passing", true)), test("noNumber", true, "Passed"));
    assert_eq!(shown(parse_run_tests_line("x failing later passing", false)), test("x", false, "Failed"));
    assert_eq!(shown(parse_run_tests_line("x passing later failing", false)), test("x", false, "Failed"));
    // The flag decides the outcome, not the line.
    assert_eq!(shown(parse_run_tests_line("1. odd \u{2717} failing", true)), test("odd", true, "Passed"));
}

#[test]
fn run_tests_line_name_may_hold_the_words() {
    assert_eq!(shown(parse_run_tests_line("1. passingTest \u{2713}", true)), test("passingTest", true, "Passed"));
    assert_eq!(shown(parse_run_tests_line("1. passingTest \u{2713} passing", true)), test("passingTest", true, "Passed"));
    assert_eq!(shown(parse_run_tests_line("2. failingThing \u{2717} failing", false)), test("failingThing", false, "Failed"));
    assert_eq!(shown(parse_run_tests_line("3. lib.passing.failing.ok \u{2717}", false)), test("lib.passing.failing.ok", false, "Failed"));
    // Without a mark the words are all there is to end the name.
    assert_eq!(shown(parse_run_tests_line("1. passingTest passing", true)), None);
    assert_eq!(shown(parse_run_tests_line("1. myTest passing", true)), test("myTest", true, "Passed"));
}

#[test]
fn run_tests_line_number_is_stripped_only_with_dot_and_space() {
    assert_eq!(shown(parse_run_tests_line("1.name \u{2713}", true)), test("1.name", true, "Passed"));
    assert_eq!(shown(parse_run_tests_line("3 tests \u{2713}", true)), test("3 tests", true, "Passed"));
    // The first `. ` counts, wherever it stands.
    assert_eq!(shown(parse_run_tests_line("1abc. name \u{2713}", true)), test("name", true, "Passed"));
    assert_eq!(shown(parse_run_tests_line("a. name \u{2713}", true)), test("a. name", true, "Passed"));
    assert_eq!(shown(parse_run_tests_line("1. a. b \u{2713}", true)), test("a. b", true, "Passed"));
    // Only the ten ASCII digits count as a number.
    assert_eq!(shown(parse_run_tests_line("\u{661}. name \u{2713}", true)), test("\u{661}. name", true, "Passed"));
}

#[test]
fn run_tests_line_without_a_name_is_nothing() {
    assert_eq!(shown(parse_run_tests_line("", true)), None);
    assert_eq!(shown(parse_run_tests_line("   ", true)), None);
    assert_eq!(shown(parse_run_tests_line("\u{2713} passing", true)), None);
    assert_eq!(shown(parse_run_tests_line("1. \u{2717} failing", false)), None);
    assert_eq!(shown(parse_run_tests_line("passing", true)), None);
    assert_eq!(shown(parse_run_tests_line("7. \u{2713}", true)), None);
    // The line is trimmed before the number is looked for.
    assert_eq!(shown(parse_run_tests_line("7. ", true)), test("7.", true, "Passed"));
}

#[test]
fn test_mark_of_a_line() {
    assert_eq!(shown(parse_test_result("\u{2705} Passed Passed (cached)")), test("_pending_", true, "Passed"));
    assert_eq!(shown(parse_test_result("  \u{25c9} Passed  ")), test("_pending_", true, "Passed"));
    assert_eq!(shown(parse_test_result("\u{1f6ab} FAILED square.tests.ex1")), test("_pending_", false, "Failed"));
    assert_eq!(shown(parse_test_result("2 FAILED")), test("_pending_", false, "Failed"));
    assert_eq!(shown(parse_test_result("\u{2705} 1 passed, 0 failed, FAILED was not it")), None);
    assert_eq!(shown(parse_test_result("\u{2705} Passed, 0 failed, FAILED was not it")), test("_pending_", true, "Passed"));
    assert_eq!(shown(parse_test_result("1 FAILED, 0 failed")), None);
    assert_eq!(shown(parse_test_result("Passed")), None);
    assert_eq!(shown(parse_test_result("\u{2705}")), None);
    assert_eq!(shown(parse_test_result("")), None);
    // A test's source line names the test and says nothing of its outcome.
    assert_eq!(shown(parse_test_result("  4 | test> square.tests.ex1 = check \u{2705} Passed")), None);
    // Without a name it is read like any other line.
    assert_eq!(shown(parse_test_result("  4 | test> = \u{2705} Passed")), test("_pending_", true, "Passed"));
    assert_eq!(shown(parse_test_result("  4 | test>")), None);
}

fn watch(s: &str) -> Option<(String, String, usize)> {
    parse_watch_result(s).map(|w| (w.expression, w.result, w.line_number))
}

#[test]
fn watch_result_of_a_piece_of_output() {
    assert_eq!(watch("  1 | > 1 + 2\n        \u{29e9}\n        3"), Some(("1 + 2".to_string(), "3".to_string(), 1)));
    assert_eq!(
        watch(" 12 | >   square 4  \n\n  \u{29e9}  \n\n   16\n\n   more   \n"),
        Some(("  square 4".to_string(), "16\nmore".to_string(), 12))
    );
    assert_eq!(watch(" 12 | >square 4\n\u{29e9}\n16"), None);
    assert_eq!(watch(" 12 | > x >y\n"), Some(("x >y".to_string(), "".to_string(), 12)));
    assert_eq!(watch("  3 | > x"), Some(("x".to_string(), "".to_string(), 3)));
    assert_eq!(watch("  3 | > x\n\u{29e9}"), Some(("x".to_string(), "".to_string(), 3)));
}

#[test]
fn watch_result_needs_a_line_number_and_an_expression() {
    assert_eq!(watch(""), None);
    assert_eq!(watch("\u{29e9}\n3"), None);
    assert_eq!(watch("  0 | > x\n\u{29e9}\n3"), None);
    assert_eq!(watch("  n | > x\n\u{29e9}\n3"), None);
    assert_eq!(watch("  -1 | > x\n\u{29e9}\n3"), None);
    assert_eq!(watch("  1 | x > y\n\u{29e9}\n3"), None);
    assert_eq!(watch("  1 | > \n\u{29e9}\n3"), None);
    assert_eq!(watch("  99999999999999999999999 | > x\n\u{29e9}\n3"), None);
}

#[test]
fn watch_result_takes_the_last_expression_before_the_marker() {
    assert_eq!(
        watch("  1 | > a\n  2 | > b\n\u{29e9}\n5\n  3 | > c\n\u{29e9}\n6"),
        Some(("b".to_string(), "5\n3 | > c\n\u{29e9}\n6".to_string(), 2))
    );
    // A later line may set the number and leave the expression.
    assert_eq!(watch("  1 | > a\n  7 | x > y\n\u{29e9}\n5"), Some(("a".to_string(), "5".to_string(), 7)));
}

fn typecheck(raw: &str, is_error: bool) -> (String, Vec<String>, Vec<(String, String, usize)>, Vec<(String, bool, String)>) {
    let (output, errors, watches, tests) = parse_typecheck_output(raw, is_error);
    (
        output,
        errors,
        watches.into_iter().map(|w| (w.expression, w.result, w.line_number)).collect(),
        tests.into_iter().map(|t| (t.name, t.passed, t.message)).collect(),
    )
}

fn messages(list: &[&str]) -> String {
    let quoted: Vec<String> = list.iter().map(|m| serde_json::Value::String(m.to_string()).to_string()).collect();
    format!("{{\"outputMessages\":[{}]}}", quoted.join(","))
}

#[test]
fn same_pass_mark_twice_gives_one_result_for_the_test() {
    let raw = messages(&[
        "  4 | test> square.tests.ex1 = check (square 2 == 4)",
        "\u{2705} Passed",
        "  4 | test> square.tests.ex1 = check (square 2 == 4)",
        "\u{2705} Passed",
    ]);
    let (output, errors, watches, tests) = typecheck(&raw, false);
    assert_eq!(tests, vec![("square.tests.ex1".to_string(), true, "Passed".to_string())]);
    assert_eq!(output, "\u{2705} square.tests.ex1");
    assert!(errors.is_empty() && watches.is_empty());
}

#[test]
fn pass_mark_split_over_two_messages_gives_one_result_for_the_test() {
    let raw = messages(&[
        "  4 | test> t.one = check true\n\u{2705} Passed",
        "\u{2705} Passed (cached)",
        "  9 | test> t.one = check true",
        "\u{1f6ab} FAILED",
    ]);
    let (_, _, _, tests) = typecheck(&raw, false);
    assert_eq!(tests.iter().filter(|t| t.0 == "t.one").count(), 1);
    // The mark without a name before it settles a test called `test`.
    assert_eq!(
        tests,
        vec![("t.one".to_string(), true, "Passed".to_string()), ("test".to_string(), true, "Passed".to_string())]
    );
}

#[test]
fn failed_test_carries_the_line_as_its_message() {
    let raw = messages(&["  4 | test> t.bad = check false", "  \u{1f6ab} FAILED t.bad", "  5 | test> t.worse = x", "3 FAILED"]);
    let (output, _, _, tests) = typecheck(&raw, false);
    assert_eq!(
        tests,
        vec![
            ("t.bad".to_string(), false, "  \u{1f6ab} FAILED t.bad".to_string()),
            ("t.worse".to_string(), false, "3 FAILED".to_string()),
        ]
    );
    assert_eq!(output, "\u{1f6ab} t.bad\n  \u{1f6ab} FAILED t.bad\n\u{1f6ab} t.worse\n3 FAILED");
}

#[test]
fn watch_values_are_matched_by_line_number_and_kept_once() {
    let raw = messages(&[
        "  1 | > 1 + 2",
        "        \u{29e9}",
        "",
        "        3",
        "  1 | > 1 + 2",
        "  \u{29e9}",
        "  4",
        "  2 | > other",
        "  a | b",
        "  x",
        "  y",
    ]);
    let (output, _, watches, tests) = typecheck(&raw, false);
    assert_eq!(
        watches,
        vec![("1 + 2".to_string(), "3".to_string(), 1), ("other".to_string(), "x".to_string(), 2)]
    );
    assert!(tests.is_empty());
    assert_eq!(output, "> 1 + 2\n\u{21d2} 3\n\n> other\n\u{21d2} x");
}

#[test]
fn tests_win_over_watches_in_the_summary() {
    let raw = messages(&["  1 | > 1", "\u{29e9}", "1", "  2 | test> t = x", "\u{25c9} Passed"]);
    let (output, _, watches, tests) = typecheck(&raw, false);
    assert_eq!(watches.len(), 1);
    assert_eq!(tests.len(), 1);
    assert_eq!(output, "\u{2705} t");
}

#[test]
fn typecheck_fallbacks() {
    assert_eq!(typecheck("{}", false), ("Code typechecks successfully".to_string(), vec![], vec![], vec![]));
    assert_eq!(typecheck("{}", true), ("Code typechecks successfully".to_string(), vec![], vec![], vec![]));
    assert_eq!(typecheck("[]", false).0, "Code typechecks successfully");
    assert_eq!(typecheck("boom", true), ("boom".to_string(), vec!["boom".to_string()], vec![], vec![]));
    assert_eq!(typecheck("fine", false), ("fine".to_string(), vec![], vec![], vec![]));
    assert_eq!(typecheck("", true), ("".to_string(), vec!["".to_string()], vec![], vec![]));
    assert_eq!(
        typecheck("{\"errorMessages\":[\"a\",\"\",5,\"b\"]}", false),
        ("a\nb".to_string(), vec!["a".to_string(), "b".to_string()], vec![], vec![])
    );
}

#[test]
fn summaries_can_be_made_from_a_parsed_answer() {
    let json = parse_json("{\"outputMessages\":[\"  1 | > 1\\n\u{29e9}\\n1\"]}").unwrap();
    let (output, _, watches, _) = typecheck_summary(Some(&json), "ignored", true);
    assert_eq!(output, "> 1\n\u{21d2} 1");
    assert_eq!(watches.len(), 1);
    let (output, errors, _, _) = typecheck_summary(None, "raw", true);
    assert_eq!((output.as_str(), errors), ("raw", vec!["raw".to_string()]));
    assert_eq!(update_summary(None, "raw", false), ("raw".to_string(), vec![]));
    assert_eq!(update_summary(Some(&json), "raw", false).0, "  1 | > 1\n\u{29e9}\n1");
    assert_eq!(run_summary(Some(&json), "raw", false).2, "  1 | > 1\n\u{29e9}\n1");
    assert_eq!(tests_summary(Some(&json), "raw", false).0, "  1 | > 1\n\u{29e9}\n1");
    assert_eq!(run_summary(None, "raw", true), ("".to_string(), "raw".to_string(), "raw".to_string(), vec!["raw".to_string()]));
    assert_eq!(tests_summary(None, "raw", true).0, "raw");
}

#[test]
fn lines_are_scanned_message_after_message() {
    let all = lines_of_messages(&vec![chars("a\r\nb\n"), chars(""), chars("c"), chars("\n\nd")]);
    assert_eq!(all, vec![chars("a"), chars("b"), chars("c"), chars(""), chars(""), chars("d")]);
    let scan = scan_output(&vec![chars("  3 | test> later = x"), chars("  5 | > 1")]);
    assert_eq!(scan.pending_test, Some(chars("later")));
    assert_eq!(scan.pending_watch, Some((5, chars("1"))));
    assert!(scan.tests.is_empty() && scan.watches.is_empty());
}

#[test]
fn update_output() {
    assert_eq!(parse_ucm_output("{\"outputMessages\":[\"a\",\"b\"]}", false), ("a. b".to_string(), vec![]));
    assert_eq!(parse_ucm_output("{\"outputMessages\":[\"Done.\"]}", false), ("Saved to codebase".to_string(), vec![]));
    assert_eq!(parse_ucm_output("{\"outputMessages\":[\"Done. \"]}", false), ("Done. ".to_string(), vec![]));
    assert_eq!(parse_ucm_output("{\"outputMessages\":\"a\"}", false), ("Saved to codebase".to_string(), vec![]));
    assert_eq!(parse_ucm_output("{\"sourceCodeUpdates\":[]}", true), ("Update failed".to_string(), vec!["Update failed".to_string()]));
    assert_eq!(parse_ucm_output("{\"sourceCodeUpdates\":[1,2,3,4,5,6,7,8,9,10,11]}", false), ("Updated 11 definitions".to_string(), vec![]));
    assert_eq!(parse_ucm_output("null", false), ("Saved to codebase".to_string(), vec![]));
    assert_eq!(parse_ucm_output("oops", true), ("oops".to_string(), vec!["oops".to_string()]));
}

#[test]
fn run_function_output() {
    assert_eq!(
        parse_run_function_output("{\"stdout\":5,\"stderr\":\"e\"}", false),
        ("".to_string(), "e".to_string(), "Function executed successfully".to_string(), vec![])
    );
    assert_eq!(
        parse_run_function_output("{\"outputMessages\":[\"Loading\",\"x\"],\"errorMessages\":[\"bad\"]}", true),
        ("".to_string(), "".to_string(), "x".to_string(), vec!["bad".to_string()])
    );
}

#[test]
fn mark_decides_between_pass_and_fail() {
    let raw = "1. passingTest \u{2713}\n2. passingThing \u{2717} failing\n3. failingOnce \u{2713} passing\n4. both \u{2717} then \u{2713}";
    let (output, errors, tests) = parse_run_tests_output(raw, false);
    let seen: Vec<(String, bool)> = tests.into_iter().map(|t| (t.name, t.passed)).collect();
    assert_eq!(
        seen,
        vec![
            ("passingTest".to_string(), true),
            ("passingThing".to_string(), false),
            ("failingOnce".to_string(), true),
            ("both".to_string(), false),
        ]
    );
    assert!(errors.is_empty());
    assert_eq!(
        output,
        "\u{2705} passingTest - Passed\n\u{1f6ab} passingThing - FAILED\n\u{2705} failingOnce - Passed\n\u{1f6ab} both - FAILED"
    );
    let json = "{\"outputMessages\":[\"2. passingThing \u{2717} failing\",\"no mark but failing\",\"no mark at all\"]}";
    let (output, _, tests) = parse_run_tests_output(json, false);
    assert_eq!(tests.len(), 2);
    assert_eq!((tests[0].name.as_str(), tests[0].passed), ("passingThing", false));
    assert_eq!((tests[1].name.as_str(), tests[1].passed), ("no mark but", false));
    assert_eq!(output, "\u{1f6ab} passingThing - FAILED\nFailed\n\u{1f6ab} no mark but - FAILED\nFailed");
}

#[test]
fn run_tests_output() {
    let (output, errors, tests) = parse_run_tests_output("{\"outputMessages\":[\"1. a passing\",\"\u{2717}\",\"passing failing\"]}", false);
    assert_eq!(output, "\u{2705} a - Passed");
    assert!(errors.is_empty());
    assert_eq!(tests.len(), 1);
    let (output, _, tests) = parse_run_tests_output("1. a \u{2717} failing\r\n2. b \u{2713} passing\r\n", true);
    assert_eq!(output, "\u{1f6ab} a - FAILED\n\u{2705} b - Passed");
    assert_eq!(tests.len(), 2);
    let (output, errors, tests) = parse_run_tests_output("nothing here", true);
    assert_eq!((output.as_str(), errors, tests.len()), ("nothing here", vec!["nothing here".to_string()], 0));
}

#[test]
fn pass_mark_after_a_failure_of_the_same_test_leaves_the_failure() {
    let raw = messages(&[
        "  4 | test> t.one = check false",
        "\u{1f6ab} FAILED",
        "  4 | test> t.one = check false",
        "\u{2705} Passed",
        "\u{2705} Passed",
    ]);
    let (_, _, _, tests) = typecheck(&raw, false);
    assert_eq!(
        tests,
        vec![
            ("t.one".to_string(), false, "\u{1f6ab} FAILED".to_string()),
            ("test".to_string(), true, "Passed".to_string()),
        ]
    );
}
