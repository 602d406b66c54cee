//! Reading what UCM answers to an update, to a run of the tests and to a run
//! of a function.
//!
//! Every answer is tried as JSON first. One that is not JSON is taken as an
//! opaque message: an error if the tool flagged one, plain output otherwise.

use crate::decimal::{decimal, is_digit, push_decimal, value_of_digit};
use crate::json::{json_option, member_items, member_text, member_texts, Json, JsonValue};
use crate::mcp_client::{tests_view, TestResult, TestView};
use crate::text::{
    after_first, append_str, before_first, chars_of, contains, join, kept, lines, non_empty,
    slice, string_of, strings_of, text_after, text_before, text_contains, text_copy, text_is,
    text_join, text_lines, text_trim, texts, texts_non_empty, trim,
};
use crate::typecheck_output::{parsed_value, test_option};
use vstd::prelude::*;

verus! {

/// An output message of an update that is worth showing.
pub open spec fn update_message_counts(s: Seq<char>) -> bool {
    s.len() > 0 && !contains(s, "Loading changes detected"@) && s != "Done."@
}

/// An output message of a run that is worth showing.
pub open spec fn run_message_counts(s: Seq<char>) -> bool {
    s.len() > 0 && !contains(s, "Loading"@) && s != "Done."@
}

/// The line that says how many definitions were updated.
pub open spec fn updated_line(count: nat) -> Seq<char> {
    "Updated "@ + decimal(count) + " definition"@ + if count == 1 {
        ""@
    } else {
        "s"@
    }
}

/// The messages of an update: the output messages that count, then the
/// number of updated definitions where there are any.
pub open spec fn update_messages(json: JsonValue) -> Seq<Seq<char>> {
    let all = member_texts(json, "outputMessages"@);
    let shown = kept(all, |s: Seq<char>| update_message_counts(s), all.len() as int);
    let count = member_items(json, "sourceCodeUpdates"@).len();
    if count > 0 {
        shown.push(updated_line(count))
    } else {
        shown
    }
}

/// What an answer that is not JSON comes to: the text itself, and as the one
/// error too if the tool flagged an error.
pub open spec fn opaque_errors(raw: Seq<char>, is_error: bool) -> Seq<Seq<char>> {
    if is_error {
        seq![raw]
    } else {
        Seq::empty()
    }
}

/// What UCM's answer to an update comes to: a summary and the errors.
///
/// Error messages that are not empty win, joined line by line. Otherwise the
/// messages joined with `. `; with no message at all, `Update failed` (as the
/// one error too) if the tool flagged an error, else `Saved to codebase`.
pub open spec fn update_outcome(parsed: Option<JsonValue>, raw: Seq<char>, is_error: bool) -> (
    Seq<char>,
    Seq<Seq<char>>,
) {
    match parsed {
        Some(json) => {
            let errors = non_empty(member_texts(json, "errorMessages"@));
            let messages = update_messages(json);
            if errors.len() > 0 {
                (join(errors, "\n"@), errors)
            } else if messages.len() == 0 {
                if is_error {
                    ("Update failed"@, seq!["Update failed"@])
                } else {
                    ("Saved to codebase"@, Seq::empty())
                }
            } else {
                (join(messages, ". "@), Seq::empty())
            }
        },
        None => (raw, opaque_errors(raw, is_error)),
    }
}

fn opaque(raw_output: &str, is_error: bool) -> (r: Vec<String>)
    ensures
        r.deep_view() == opaque_errors(raw_output@, is_error),
{
    let mut errors: Vec<String> = Vec::new();
    if is_error {
        errors.push(raw_output.to_owned());
        assert(errors.deep_view() =~= seq![raw_output@]);
    } else {
        assert(errors.deep_view() =~= Seq::<Seq<char>>::empty());
    }
    errors
}

fn no_errors() -> (r: Vec<String>)
    ensures
        r.deep_view() == Seq::<Seq<char>>::empty(),
{
    let r: Vec<String> = Vec::new();
    assert(r.deep_view() =~= Seq::<Seq<char>>::empty());
    r
}

fn counts_for_update(s: &Vec<char>) -> (r: bool)
    ensures
        r == update_message_counts(s@),
{
    s.len() > 0 && !text_contains(s, "Loading changes detected") && !text_is(s, "Done.")
}

fn counts_for_run(s: &Vec<char>) -> (r: bool)
    ensures
        r == run_message_counts(s@),
{
    s.len() > 0 && !text_contains(s, "Loading") && !text_is(s, "Done.")
}

fn messages_of_update(json: &Json) -> (r: Vec<Vec<char>>)
    ensures
        texts(r@) == update_messages(json@),
{
    let all = json.get_texts("outputMessages");
    let mut shown: Vec<Vec<char>> = Vec::new();
    let mut i: usize = 0;
    while i < all.len()
        invariant
            i <= all.len(),
            texts(shown@) == kept(
                texts(all@),
                |s: Seq<char>| update_message_counts(s),
                i as int,
            ),
        decreases all.len() - i,
    {
        if counts_for_update(&all[i]) {
            let t = text_copy(&all[i]);
            assert(texts(shown@.push(t)) =~= texts(shown@).push(t@));
            shown.push(t);
        }
        i += 1;
    }
    let count: usize = match json.get("sourceCodeUpdates") {
        Some(m) => match m.as_array() {
            Some(items) => items.len(),
            None => 0,
        },
        None => 0,
    };
    if count > 0 {
        let mut line: Vec<char> = Vec::new();
        append_str(&mut line, "Updated ");
        push_decimal(&mut line, count as u64);
        append_str(&mut line, " definition");
        if count == 1 {
            append_str(&mut line, "");
        } else {
            append_str(&mut line, "s");
        }
        assert(line@ =~= updated_line(count as nat));
        assert(texts(shown@.push(line)) =~= texts(shown@).push(line@));
        shown.push(line);
    }
    shown
}

/// What UCM's answer to an update comes to, given what it parsed to as JSON
/// (nothing, where it is not JSON).
pub fn update_summary(parsed: Option<&Json>, raw_output: &str, is_error: bool) -> (r: (
    String,
    Vec<String>,
))
    ensures
        (r.0@, r.1.deep_view()) == update_outcome(json_option(parsed), raw_output@, is_error),
{
    match parsed {
        Some(json) => {
            let errors = texts_non_empty(&json.get_texts("errorMessages"));
            let messages = messages_of_update(json);
            if errors.len() > 0 {
                (string_of(&text_join(&errors, "\n")), strings_of(&errors))
            } else if messages.len() == 0 {
                if is_error {
                    let mut failed: Vec<String> = Vec::new();
                    failed.push("Update failed".to_owned());
                    assert(failed.deep_view() =~= seq!["Update failed"@]);
                    ("Update failed".to_owned(), failed)
                } else {
                    ("Saved to codebase".to_owned(), no_errors())
                }
            } else {
                (string_of(&text_join(&messages, ". ")), no_errors())
            }
        },
        None => (raw_output.to_owned(), opaque(raw_output, is_error)),
    }
}

/// Reads UCM's answer to an update: a summary for the user and the errors.
pub fn parse_ucm_output(raw_output: &str, is_error: bool) -> (r: (String, Vec<String>))
    ensures
        (r.0@, r.1.deep_view()) == update_outcome(
            parsed_value(raw_output@),
            raw_output@,
            is_error,
        ),
{
    match crate::json::parse_json(raw_output) {
        Ok(json) => update_summary(Some(&json), raw_output, is_error),
        Err(_) => update_summary(None, raw_output, is_error),
    }
}

/// What running a function came to.
pub struct RunOutcome {
    pub stdout: Seq<char>,
    pub stderr: Seq<char>,
    pub output: Seq<char>,
    pub errors: Seq<Seq<char>>,
}

/// The text, or the empty text where there is none.
pub open spec fn text_or_empty(t: Option<Seq<char>>) -> Seq<char> {
    match t {
        Some(s) => s,
        None => Seq::empty(),
    }
}

/// What UCM's answer to a run comes to.
///
/// From JSON: the two output channels as they are; the error messages that
/// are not empty; and as the text to show the standard output, or else the
/// output messages that count, or else a fixed line. An answer that is not
/// JSON is the error channel and the one error if the tool flagged an error,
/// and the standard output otherwise.
pub open spec fn run_outcome(parsed: Option<JsonValue>, raw: Seq<char>, is_error: bool)
    -> RunOutcome {
    match parsed {
        Some(json) => {
            let stdout = text_or_empty(member_text(json, "stdout"@));
            let all = member_texts(json, "outputMessages"@);
            let messages = kept(all, |s: Seq<char>| run_message_counts(s), all.len() as int);
            RunOutcome {
                stdout: stdout,
                stderr: text_or_empty(member_text(json, "stderr"@)),
                output: if stdout.len() > 0 {
                    stdout
                } else if messages.len() > 0 {
                    join(messages, "\n"@)
                } else {
                    "Function executed successfully"@
                },
                errors: non_empty(member_texts(json, "errorMessages"@)),
            }
        },
        None => if is_error {
            RunOutcome { stdout: Seq::empty(), stderr: raw, output: raw, errors: seq![raw] }
        } else {
            RunOutcome { stdout: raw, stderr: Seq::empty(), output: raw, errors: Seq::empty() }
        },
    }
}

/// What was read from a run's answer, as plain values.
pub open spec fn run_outcome_of(r: (String, String, String, Vec<String>)) -> RunOutcome {
    RunOutcome { stdout: r.0@, stderr: r.1@, output: r.2@, errors: r.3.deep_view() }
}

fn messages_of_run(json: &Json) -> (r: Vec<Vec<char>>)
    ensures
        texts(r@) == kept(
            member_texts(json@, "outputMessages"@),
            |s: Seq<char>| run_message_counts(s),
            member_texts(json@, "outputMessages"@).len() as int,
        ),
{
    let all = json.get_texts("outputMessages");
    let mut shown: Vec<Vec<char>> = Vec::new();
    let mut i: usize = 0;
    while i < all.len()
        invariant
            i <= all.len(),
            texts(shown@) == kept(texts(all@), |s: Seq<char>| run_message_counts(s), i as int),
        decreases all.len() - i,
    {
        if counts_for_run(&all[i]) {
            let t = text_copy(&all[i]);
            assert(texts(shown@.push(t)) =~= texts(shown@).push(t@));
            shown.push(t);
        }
        i += 1;
    }
    assert(texts(all@).len() == all.len());
    shown
}

fn member_string(json: &Json, key: &str) -> (r: String)
    ensures
        r@ == text_or_empty(member_text(json@, key@)),
{
    match json.get_str(key) {
        Some(s) => s.to_owned(),
        None => String::new(),
    }
}

/// What UCM's answer to a run comes to, given what it parsed to as JSON
/// (nothing, where it is not JSON).
pub fn run_summary(parsed: Option<&Json>, raw_output: &str, is_error: bool) -> (r: (
    String,
    String,
    String,
    Vec<String>,
))
    ensures
        run_outcome_of(r) == run_outcome(json_option(parsed), raw_output@, is_error),
{
    match parsed {
        Some(json) => {
            let stdout = member_string(json, "stdout");
            let stderr = member_string(json, "stderr");
            let errors = strings_of(&texts_non_empty(&json.get_texts("errorMessages")));
            let messages = messages_of_run(json);
            let output = if stdout.as_str().unicode_len() > 0 {
                stdout.clone()
            } else if messages.len() > 0 {
                string_of(&text_join(&messages, "\n"))
            } else {
                "Function executed successfully".to_owned()
            };
            (stdout, stderr, output, errors)
        },
        None => {
            if is_error {
                (String::new(), raw_output.to_owned(), raw_output.to_owned(), opaque(
                    raw_output,
                    true,
                ))
            } else {
                (raw_output.to_owned(), String::new(), raw_output.to_owned(), opaque(
                    raw_output,
                    false,
                ))
            }
        },
    }
}

/// Reads UCM's answer to a run: standard output, error output, the text to
/// show, and the errors.
pub fn parse_run_function_output(raw_output: &str, is_error: bool) -> (r: (
    String,
    String,
    String,
    Vec<String>,
))
    ensures
        run_outcome_of(r) == run_outcome(parsed_value(raw_output@), raw_output@, is_error),
{
    match crate::json::parse_json(raw_output) {
        Ok(json) => run_summary(Some(&json), raw_output, is_error),
        Err(_) => run_summary(None, raw_output, is_error),
    }
}

/// The character is one of the two marks `✓` and `✗`.
pub open spec fn is_mark(c: char) -> bool {
    c == '\u{2713}' || c == '\u{2717}'
}

/// The first index at or after `i` that holds a mark, or the length of `s`.
pub open spec fn mark_index(s: Seq<char>, i: int) -> int
    decreases s.len() - i,
{
    if 0 <= i < s.len() && !is_mark(s[i]) {
        mark_index(s, i + 1)
    } else {
        i
    }
}

/// What stands before the first mark.
pub open spec fn before_mark(s: Seq<char>) -> Seq<char> {
    if mark_index(s, 0) <= s.len() {
        s.subrange(0, mark_index(s, 0))
    } else {
        s
    }
}

/// A line without its leading `N. `, where it starts with a digit and holds
/// `. `.
pub open spec fn without_number(s: Seq<char>) -> Seq<char> {
    if s.len() > 0 && is_digit(s[0]) {
        match after_first(s, ". "@) {
            Some(rest) => rest,
            None => s,
        }
    } else {
        s
    }
}

/// The verdict of the first mark in a text: `✓` passes, `✗` fails; none
/// where the text holds no mark.
pub open spec fn first_mark(s: Seq<char>) -> Option<bool> {
    let i = mark_index(s, 0);
    if 0 <= i < s.len() {
        Some(s[i] == '\u{2713}')
    } else {
        None
    }
}

/// The name of the test on a line of the shape `N. name ✓`: what stands
/// after the number and before the first mark, trimmed. Only where the line
/// holds no mark do the words stand in for it: the name then ends before the
/// first `passing` or `failing`.
pub open spec fn test_name_on_line(line: Seq<char>) -> Seq<char> {
    let rest = without_number(trim(line));
    if first_mark(rest) is Some {
        trim(before_mark(rest))
    } else {
        trim(before_first(before_first(rest, "passing"@), "failing"@))
    }
}

/// The result that a line of a test run shows, given whether it is a pass;
/// none where the line holds no name.
pub open spec fn test_on_line(line: Seq<char>, passed: bool) -> Option<TestView> {
    if test_name_on_line(line).len() > 0 {
        Some(
            TestView {
                name: test_name_on_line(line),
                passed: passed,
                message: if passed {
                    "Passed"@
                } else {
                    "Failed"@
                },
            },
        )
    } else {
        None
    }
}

fn text_before_mark(s: &Vec<char>) -> (r: Vec<char>)
    ensures
        r@ == before_mark(s@),
{
    let mut i: usize = 0;
    while i < s.len() && !(s[i] == '\u{2713}' || s[i] == '\u{2717}')
        invariant
            i <= s.len(),
            mark_index(s@, 0) == mark_index(s@, i as int),
        decreases s.len() - i,
    {
        i += 1;
    }
    slice(s, 0, i)
}

fn text_without_number(s: &Vec<char>) -> (r: Vec<char>)
    ensures
        r@ == without_number(s@),
{
    if s.len() > 0 && value_of_digit(s[0]).is_some() {
        match text_after(s, ". ") {
            Some(rest) => rest,
            None => text_copy(s),
        }
    } else {
        text_copy(s)
    }
}

fn text_first_mark(s: &Vec<char>) -> (r: Option<bool>)
    ensures
        r == first_mark(s@),
{
    let mut i: usize = 0;
    while i < s.len() && !(s[i] == '\u{2713}' || s[i] == '\u{2717}')
        invariant
            i <= s.len(),
            mark_index(s@, 0) == mark_index(s@, i as int),
        decreases s.len() - i,
    {
        i += 1;
    }
    if i < s.len() {
        Some(s[i] == '\u{2713}')
    } else {
        None
    }
}

fn line_test(line: &Vec<char>, passed: bool) -> (r: Option<TestResult>)
    ensures
        test_option(r) == test_on_line(line@, passed),
{
    let trimmed = text_trim(line);
    let rest = text_without_number(&trimmed);
    let name = if text_first_mark(&rest).is_some() {
        text_trim(&text_before_mark(&rest))
    } else {
        text_trim(&text_before(&text_before(&rest, "passing"), "failing"))
    };
    if name.len() == 0 {
        None
    } else {
        Some(
            TestResult {
                name: string_of(&name),
                passed: passed,
                message: if passed {
                    "Passed".to_owned()
                } else {
                    "Failed".to_owned()
                },
            },
        )
    }
}

/// Reads one line of a test run, such as `1. myTest ✓ passing`.
pub fn parse_run_tests_line(line: &str, passed: bool) -> (r: Option<TestResult>)
    ensures
        test_option(r) == test_on_line(line@, passed),
{
    line_test(&chars_of(line), passed)
}

/// The line reports a passing test: its first mark is `✓`, or it holds no
/// mark and says `passing`.
pub open spec fn looks_passing(s: Seq<char>) -> bool {
    match first_mark(s) {
        Some(passed) => passed,
        None => contains(s, "passing"@),
    }
}

/// The line reports a failing test: its first mark is `✗`, or it holds no
/// mark and says `failing`.
pub open spec fn looks_failing(s: Seq<char>) -> bool {
    match first_mark(s) {
        Some(passed) => !passed,
        None => contains(s, "failing"@),
    }
}

/// The test that a line reports, where it reports one.
pub open spec fn test_reported(s: Seq<char>) -> Option<TestView> {
    if looks_passing(s) {
        test_on_line(s, true)
    } else if looks_failing(s) {
        test_on_line(s, false)
    } else {
        None
    }
}

/// The tests that the first `n` lines report, in order.
pub open spec fn tests_reported(all: Seq<Seq<char>>, n: int) -> Seq<TestView>
    decreases n,
{
    if n <= 0 || n > all.len() {
        Seq::empty()
    } else {
        match test_reported(all[n - 1]) {
            Some(t) => tests_reported(all, n - 1).push(t),
            None => tests_reported(all, n - 1),
        }
    }
}

/// A message that reports no test and is worth showing.
pub open spec fn other_message_counts(s: Seq<char>) -> bool {
    !looks_passing(s) && !looks_failing(s) && run_message_counts(s)
}

/// The lines of a text, each trimmed.
pub open spec fn trimmed_lines(raw: Seq<char>) -> Seq<Seq<char>> {
    Seq::new(lines(raw).len(), |i: int| trim(lines(raw)[i]))
}

/// How a test shows in the summary of a structured answer.
pub open spec fn run_report_line(t: TestView) -> Seq<char> {
    if t.passed {
        "\u{2705} "@ + t.name + " - Passed"@
    } else {
        "\u{1f6ab} "@ + t.name + " - FAILED\n"@ + t.message
    }
}

/// How a test shows in the summary of a plain-text answer.
pub open spec fn plain_report_line(t: TestView) -> Seq<char> {
    if t.passed {
        "\u{2705} "@ + t.name + " - Passed"@
    } else {
        "\u{1f6ab} "@ + t.name + " - FAILED"@
    }
}

/// How the tests show in the summary of a structured answer.
pub open spec fn run_report_lines(tests: Seq<TestView>) -> Seq<Seq<char>> {
    Seq::new(tests.len(), |i: int| run_report_line(tests[i]))
}

/// How the tests show in the summary of a plain-text answer.
pub open spec fn plain_report_lines(tests: Seq<TestView>) -> Seq<Seq<char>> {
    Seq::new(tests.len(), |i: int| plain_report_line(tests[i]))
}

/// What a run of the tests came to.
pub struct TestsOutcome {
    pub output: Seq<char>,
    pub errors: Seq<Seq<char>>,
    pub tests: Seq<TestView>,
}

/// What UCM's answer to a run of the tests comes to.
///
/// From JSON: each output message either reports a test or, if it counts, is
/// a message; error messages that are not empty win; otherwise the text lists
/// the tests, or else the messages, or else says that there are no tests.
/// From plain text: each line, trimmed, may report a test; where one does, the
/// text lists the tests; otherwise the text is taken as it is.
pub open spec fn tests_outcome(parsed: Option<JsonValue>, raw: Seq<char>, is_error: bool)
    -> TestsOutcome {
    match parsed {
        Some(json) => {
            let errors = non_empty(member_texts(json, "errorMessages"@));
            let all = member_texts(json, "outputMessages"@);
            let tests = tests_reported(all, all.len() as int);
            let messages = kept(all, |s: Seq<char>| other_message_counts(s), all.len() as int);
            if errors.len() > 0 {
                TestsOutcome { output: join(errors, "\n"@), errors: errors, tests: tests }
            } else {
                TestsOutcome {
                    output: if tests.len() > 0 {
                        join(run_report_lines(tests), "\n"@)
                    } else if messages.len() > 0 {
                        join(messages, "\n"@)
                    } else {
                        "No tests found"@
                    },
                    errors: Seq::empty(),
                    tests: tests,
                }
            }
        },
        None => {
            let all = trimmed_lines(raw);
            let tests = tests_reported(all, all.len() as int);
            if tests.len() > 0 {
                TestsOutcome {
                    output: join(plain_report_lines(tests), "\n"@),
                    errors: Seq::empty(),
                    tests: tests,
                }
            } else {
                TestsOutcome {
                    output: raw,
                    errors: opaque_errors(raw, is_error),
                    tests: Seq::empty(),
                }
            }
        },
    }
}

/// What was read from a test run's answer, as plain values.
pub open spec fn tests_outcome_of(r: (String, Vec<String>, Vec<TestResult>)) -> TestsOutcome {
    TestsOutcome { output: r.0@, errors: r.1.deep_view(), tests: tests_view(r.2@) }
}

fn line_looks_passing(s: &Vec<char>) -> (r: bool)
    ensures
        r == looks_passing(s@),
{
    match text_first_mark(s) {
        Some(passed) => passed,
        None => text_contains(s, "passing"),
    }
}

fn line_looks_failing(s: &Vec<char>) -> (r: bool)
    ensures
        r == looks_failing(s@),
{
    match text_first_mark(s) {
        Some(passed) => !passed,
        None => text_contains(s, "failing"),
    }
}

fn reported_test(s: &Vec<char>) -> (r: Option<TestResult>)
    ensures
        test_option(r) == test_reported(s@),
{
    if line_looks_passing(s) {
        line_test(s, true)
    } else if line_looks_failing(s) {
        line_test(s, false)
    } else {
        None
    }
}

fn reported_tests(all: &Vec<Vec<char>>) -> (r: Vec<TestResult>)
    ensures
        tests_view(r@) == tests_reported(texts(all@), all.len() as int),
{
    let mut tests: Vec<TestResult> = Vec::new();
    let mut i: usize = 0;
    while i < all.len()
        invariant
            i <= all.len(),
            tests_view(tests@) == tests_reported(texts(all@), i as int),
        decreases all.len() - i,
    {
        match reported_test(&all[i]) {
            Some(t) => {
                assert(tests_view(tests@.push(t)) =~= tests_view(tests@).push(t@));
                tests.push(t);
            },
            None => {},
        }
        i += 1;
    }
    tests
}

fn other_messages(all: &Vec<Vec<char>>) -> (r: Vec<Vec<char>>)
    ensures
        texts(r@) == kept(
            texts(all@),
            |s: Seq<char>| other_message_counts(s),
            all.len() as int,
        ),
{
    let mut shown: Vec<Vec<char>> = Vec::new();
    let mut i: usize = 0;
    while i < all.len()
        invariant
            i <= all.len(),
            texts(shown@) == kept(texts(all@), |s: Seq<char>| other_message_counts(s), i as int),
        decreases all.len() - i,
    {
        if !line_looks_passing(&all[i]) && !line_looks_failing(&all[i]) && counts_for_run(
            &all[i],
        ) {
            let t = text_copy(&all[i]);
            assert(texts(shown@.push(t)) =~= texts(shown@).push(t@));
            shown.push(t);
        }
        i += 1;
    }
    shown
}

fn report_run(tests: &Vec<TestResult>, with_message: bool) -> (r: Vec<char>)
    ensures
        with_message ==> r@ == join(run_report_lines(tests_view(tests@)), "\n"@),
        !with_message ==> r@ == join(plain_report_lines(tests_view(tests@)), "\n"@),
{
    let mut report: Vec<Vec<char>> = Vec::new();
    let mut i: usize = 0;
    while i < tests.len()
        invariant
            i <= tests.len(),
            report.len() == i,
            forall|k: int|
                0 <= k < i ==> (#[trigger] report@[k])@ == (if with_message {
                    run_report_line(tests@[k]@)
                } else {
                    plain_report_line(tests@[k]@)
                }),
        decreases tests.len() - i,
    {
        let mut line: Vec<char> = Vec::new();
        if tests[i].passed {
            append_str(&mut line, "\u{2705} ");
            append_str(&mut line, tests[i].name.as_str());
            append_str(&mut line, " - Passed");
        } else if with_message {
            append_str(&mut line, "\u{1f6ab} ");
            append_str(&mut line, tests[i].name.as_str());
            append_str(&mut line, " - FAILED\n");
            append_str(&mut line, tests[i].message.as_str());
        } else {
            append_str(&mut line, "\u{1f6ab} ");
            append_str(&mut line, tests[i].name.as_str());
            append_str(&mut line, " - FAILED");
        }
        assert(with_message ==> line@ =~= run_report_line(tests@[i as int]@));
        assert(!with_message ==> line@ =~= plain_report_line(tests@[i as int]@));
        report.push(line);
        i += 1;
    }
    proof {
        if with_message {
            assert(texts(report@) =~= run_report_lines(tests_view(tests@)));
        } else {
            assert(texts(report@) =~= plain_report_lines(tests_view(tests@)));
        }
    }
    text_join(&report, "\n")
}

fn lines_trimmed(raw: &Vec<char>) -> (r: Vec<Vec<char>>)
    ensures
        texts(r@) == trimmed_lines(raw@),
{
    let all = text_lines(raw);
    let mut out: Vec<Vec<char>> = Vec::new();
    let mut i: usize = 0;
    while i < all.len()
        invariant
            i <= all.len(),
            out.len() == i,
            texts(all@) == lines(raw@),
            forall|k: int| 0 <= k < i ==> (#[trigger] out@[k])@ == trim(all@[k]@),
        decreases all.len() - i,
    {
        out.push(text_trim(&all[i]));
        i += 1;
    }
    assert(texts(out@) =~= trimmed_lines(raw@)) by {
        assert(texts(all@).len() == all.len());
        assert forall|k: int| 0 <= k < out.len() implies texts(out@)[k] == trimmed_lines(
            raw@,
        )[k] by {
            assert(texts(all@)[k] == all@[k]@);
        }
    }
    out
}

/// What UCM's answer to a run of the tests comes to, given what it parsed to
/// as JSON (nothing, where it is not JSON).
pub fn tests_summary(parsed: Option<&Json>, raw_output: &str, is_error: bool) -> (r: (
    String,
    Vec<String>,
    Vec<TestResult>,
))
    ensures
        tests_outcome_of(r) == tests_outcome(json_option(parsed), raw_output@, is_error),
{
    match parsed {
        Some(json) => {
            let errors = texts_non_empty(&json.get_texts("errorMessages"));
            let all = json.get_texts("outputMessages");
            assert(texts(all@).len() == all.len());
            let tests = reported_tests(&all);
            let messages = other_messages(&all);
            if errors.len() > 0 {
                (string_of(&text_join(&errors, "\n")), strings_of(&errors), tests)
            } else {
                let output = if tests.len() > 0 {
                    string_of(&report_run(&tests, true))
                } else if messages.len() > 0 {
                    string_of(&text_join(&messages, "\n"))
                } else {
                    "No tests found".to_owned()
                };
                (output, no_errors(), tests)
            }
        },
        None => {
            let all = lines_trimmed(&chars_of(raw_output));
            assert(texts(all@).len() == all.len());
            let tests = reported_tests(&all);
            if tests.len() > 0 {
                (string_of(&report_run(&tests, false)), no_errors(), tests)
            } else {
                assert(tests_view(tests@) =~= Seq::<TestView>::empty());
                (raw_output.to_owned(), opaque(raw_output, is_error), tests)
            }
        },
    }
}

/// Reads UCM's answer to a run of the tests: the text to show, the errors
/// and the test results.
pub fn parse_run_tests_output(raw_output: &str, is_error: bool) -> (r: (
    String,
    Vec<String>,
    Vec<TestResult>,
))
    ensures
        tests_outcome_of(r) == tests_outcome(parsed_value(raw_output@), raw_output@, is_error),
{
    match crate::json::parse_json(raw_output) {
        Ok(json) => tests_summary(Some(&json), raw_output, is_error),
        Err(_) => tests_summary(None, raw_output, is_error),
    }
}

} // verus!
