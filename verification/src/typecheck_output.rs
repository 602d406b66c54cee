//! Reading what UCM prints when it typechecks a scratch file: the watch
//! expressions it evaluated and the tests it ran.
//!
//! UCM prints for people. A watch expression shows as its source line
//! (`12 | > square 4`), a line with the marker `⧩` and then the value; a test
//! shows as its source line (`4 | test> square.tests.ex1 = ...`) and, later, a
//! line with a pass or fail mark. Lines that fit none of these are left out,
//! never guessed at.

use crate::decimal::{parse_usize, text_parse_usize};
use crate::json::{member_texts, Json, JsonValue};
use crate::mcp_client::{tests_view, watches_view, TestResult, TestView, WatchResult, WatchView};
use crate::text::{
    after_first, append_str, before_first, chars_of, contains, extend_texts, join, lines,
    non_empty, string_of, strings_of, strip_prefix, text_after, text_before, text_contains,
    text_eq, text_join, text_lines, text_strip_prefix, text_trim, texts, texts_non_empty, trim,
};
use vstd::prelude::*;

verus! {

/// What has been gathered from the lines read so far.
pub struct ScanView {
    /// The test named last whose mark has not been seen.
    pub pending_test: Option<Seq<char>>,
    /// The watch expression shown last whose value has not been seen.
    pub pending_watch: Option<(usize, Seq<char>)>,
    pub tests: Seq<TestView>,
    pub watches: Seq<WatchView>,
}

/// Nothing gathered yet.
pub open spec fn empty_scan() -> ScanView {
    ScanView {
        pending_test: None,
        pending_watch: None,
        tests: Seq::empty(),
        watches: Seq::empty(),
    }
}

/// The line is the source line of a test.
pub open spec fn is_test_line(s: Seq<char>) -> bool {
    contains(s, " | test>"@)
}

/// The name that a test's source line gives it: what stands between `test>`
/// and the first `=`, trimmed.
pub open spec fn named_test(s: Seq<char>) -> Seq<char> {
    match after_first(s, "test>"@) {
        Some(rest) => trim(before_first(trim(rest), "="@)),
        None => Seq::empty(),
    }
}

/// The line reports a test that passed.
pub open spec fn is_pass_line(s: Seq<char>) -> bool {
    (contains(s, "\u{2705}"@) || contains(s, "\u{25c9}"@)) && contains(s, "Passed"@)
}

/// The line reports a test that failed.
pub open spec fn is_fail_line(s: Seq<char>) -> bool {
    contains(s, "\u{1f6ab}"@) || (contains(s, "FAILED"@) && !contains(s, "0 failed"@))
}

/// The line is the source line of a watch expression.
pub open spec fn is_watch_line(s: Seq<char>) -> bool {
    contains(s, " | "@) && contains(s, "> "@) && !contains(s, "test>"@)
}

/// The line holds the marker that precedes a watch expression's value.
pub open spec fn is_arrow_line(s: Seq<char>) -> bool {
    contains(s, "\u{29e9}"@)
}

/// The expression in what follows the bar of a watch line, trimmed; `None`
/// where that does not start with `>`.
pub open spec fn expression_after_bar(part: Seq<char>) -> Option<Seq<char>> {
    match strip_prefix(part, "> "@) {
        Some(e) => Some(e),
        None => match strip_prefix(part, ">"@) {
            Some(e) => Some(trim(e)),
            None => None,
        },
    }
}

/// The line number before the bar of a source line; zero where none can be
/// read.
pub open spec fn number_before_bar(s: Seq<char>) -> usize {
    match parse_usize(trim(before_first(s, "|"@))) {
        Some(n) => n,
        None => 0,
    }
}

/// The line number and expression of a watch line, where it has a positive
/// line number and an expression that is not empty.
pub open spec fn watch_of_line(s: Seq<char>) -> Option<(usize, Seq<char>)> {
    match after_first(s, "|"@) {
        None => None,
        Some(right) => {
            let number = number_before_bar(s);
            let expression = match expression_after_bar(trim(right)) {
                Some(e) => e,
                None => Seq::empty(),
            };
            if number > 0 && expression.len() > 0 {
                Some((number, expression))
            } else {
                None
            }
        },
    }
}

/// Some test has the name.
pub open spec fn has_test(tests: Seq<TestView>, name: Seq<char>) -> bool {
    exists|i: int| 0 <= i < tests.len() && (#[trigger] tests[i]).name == name
}

/// Some watch result belongs to the source line.
pub open spec fn has_watch(watches: Seq<WatchView>, line_number: usize) -> bool {
    exists|i: int| 0 <= i < watches.len() && (#[trigger] watches[i]).line_number == line_number
}

/// A pass or fail mark settles the pending test, or a test called `test`
/// where none is pending. A name that already has a result keeps it.
pub open spec fn settle_test(st: ScanView, passed: bool, message: Seq<char>) -> ScanView {
    let name = match st.pending_test {
        Some(n) => n,
        None => "test"@,
    };
    ScanView {
        pending_test: None,
        tests: if has_test(st.tests, name) {
            st.tests
        } else {
            st.tests.push(TestView { name: name, passed: passed, message: message })
        },
        ..st
    }
}

/// A line that is none of the marked kinds is the value of the pending watch
/// expression if, trimmed, it is not empty and holds no ` | `. A source line
/// that already has a value keeps it.
pub open spec fn settle_watch(st: ScanView, s: Seq<char>) -> ScanView {
    match st.pending_watch {
        Some((number, expression)) => {
            let value = trim(s);
            if value.len() > 0 && !contains(value, " | "@) {
                ScanView {
                    pending_watch: None,
                    watches: if has_watch(st.watches, number) {
                        st.watches
                    } else {
                        st.watches.push(
                            WatchView { expression: expression, result: value, line_number: number },
                        )
                    },
                    ..st
                }
            } else {
                st
            }
        },
        None => st,
    }
}

/// What one more line adds to what has been gathered.
pub open spec fn scan_line(st: ScanView, s: Seq<char>) -> ScanView {
    if is_test_line(s) {
        if named_test(s).len() > 0 {
            ScanView { pending_test: Some(named_test(s)), ..st }
        } else {
            st
        }
    } else if is_pass_line(s) {
        settle_test(st, true, "Passed"@)
    } else if is_fail_line(s) {
        settle_test(st, false, s)
    } else if is_watch_line(s) {
        match watch_of_line(s) {
            Some(w) => ScanView { pending_watch: Some(w), ..st },
            None => st,
        }
    } else if is_arrow_line(s) {
        st
    } else {
        settle_watch(st, s)
    }
}

/// What the first `n` lines add, taken in order.
pub open spec fn scan_lines(all: Seq<Seq<char>>, n: int, st: ScanView) -> ScanView
    decreases n,
{
    if n <= 0 || n > all.len() {
        st
    } else {
        scan_line(scan_lines(all, n - 1, st), all[n - 1])
    }
}

/// The lines of the first `n` messages, message after message.
pub open spec fn message_lines(messages: Seq<Seq<char>>, n: int) -> Seq<Seq<char>>
    decreases n,
{
    if n <= 0 || n > messages.len() {
        Seq::empty()
    } else {
        message_lines(messages, n - 1) + lines(messages[n - 1])
    }
}

/// No two tests share a name.
pub open spec fn distinct_tests(tests: Seq<TestView>) -> bool {
    forall|i: int, j: int| 0 <= i < j < tests.len() ==> tests[i].name != tests[j].name
}

/// No two watch results share a line number.
pub open spec fn distinct_watches(watches: Seq<WatchView>) -> bool {
    forall|i: int, j: int|
        0 <= i < j < watches.len() ==> watches[i].line_number != watches[j].line_number
}

/// One more line never gives a test a second result, nor a source line a
/// second value.
pub proof fn lemma_scan_line_keeps_distinct(st: ScanView, s: Seq<char>)
    requires
        distinct_tests(st.tests),
        distinct_watches(st.watches),
    ensures
        distinct_tests(scan_line(st, s).tests),
        distinct_watches(scan_line(st, s).watches),
{
    let after = scan_line(st, s);
    assert forall|i: int, j: int| 0 <= i < j < after.tests.len() implies after.tests[i].name
        != after.tests[j].name by {
        if after.tests.len() > st.tests.len() {
            if j == st.tests.len() {
                assert(st.tests[i].name != after.tests[j].name);
            }
        }
    }
    assert forall|i: int, j: int| 0 <= i < j < after.watches.len() implies after.watches[i].line_number
        != after.watches[j].line_number by {
        if after.watches.len() > st.watches.len() {
            if j == st.watches.len() {
                assert(st.watches[i].line_number != after.watches[j].line_number);
            }
        }
    }
}

/// However often a pass or fail mark is repeated in the output, and however
/// the output is cut into lines, each test name ends up with exactly one
/// result and each source line with one value.
pub proof fn lemma_scan_keeps_distinct(all: Seq<Seq<char>>, n: int, st: ScanView)
    requires
        distinct_tests(st.tests),
        distinct_watches(st.watches),
    ensures
        distinct_tests(scan_lines(all, n, st).tests),
        distinct_watches(scan_lines(all, n, st).watches),
    decreases n,
{
    if n <= 0 || n > all.len() {
    } else {
        lemma_scan_keeps_distinct(all, n - 1, st);
        lemma_scan_line_keeps_distinct(scan_lines(all, n - 1, st), all[n - 1]);
    }
}

/// A pending watch expression as plain values.
pub open spec fn watch_option(w: Option<(usize, Vec<char>)>) -> Option<(usize, Seq<char>)> {
    match w {
        Some((n, e)) => Some((n, e@)),
        None => None,
    }
}

/// The characters of a text, where there is one.
pub open spec fn chars_option(t: Option<Vec<char>>) -> Option<Seq<char>> {
    match t {
        Some(x) => Some(x@),
        None => None,
    }
}

/// The gathering state of a scan.
pub struct LineScan {
    pub pending_test: Option<Vec<char>>,
    pub pending_watch: Option<(usize, Vec<char>)>,
    pub tests: Vec<TestResult>,
    pub watches: Vec<WatchResult>,
}

impl View for LineScan {
    type V = ScanView;

    open spec fn view(&self) -> ScanView {
        ScanView {
            pending_test: chars_option(self.pending_test),
            pending_watch: watch_option(self.pending_watch),
            tests: tests_view(self.tests@),
            watches: watches_view(self.watches@),
        }
    }
}

fn test_name(line: &Vec<char>) -> (r: Vec<char>)
    ensures
        r@ == named_test(line@),
{
    match text_after(line, "test>") {
        Some(rest) => text_trim(&text_before(&text_trim(&rest), "=")),
        None => Vec::new(),
    }
}

fn line_is_pass(line: &Vec<char>) -> (r: bool)
    ensures
        r == is_pass_line(line@),
{
    (text_contains(line, "\u{2705}") || text_contains(line, "\u{25c9}")) && text_contains(
        line,
        "Passed",
    )
}

fn line_is_fail(line: &Vec<char>) -> (r: bool)
    ensures
        r == is_fail_line(line@),
{
    text_contains(line, "\u{1f6ab}") || (text_contains(line, "FAILED") && !text_contains(
        line,
        "0 failed",
    ))
}

fn bar_expression(part: &Vec<char>) -> (r: Option<Vec<char>>)
    ensures
        chars_option(r) == expression_after_bar(part@),
{
    match text_strip_prefix(part, "> ") {
        Some(e) => Some(e),
        None => match text_strip_prefix(part, ">") {
            Some(e) => Some(text_trim(&e)),
            None => None,
        },
    }
}

fn bar_number(line: &Vec<char>) -> (r: usize)
    ensures
        r == number_before_bar(line@),
{
    match text_parse_usize(&text_trim(&text_before(line, "|"))) {
        Some(n) => n,
        None => 0,
    }
}

fn line_watch(line: &Vec<char>) -> (r: Option<(usize, Vec<char>)>)
    ensures
        watch_option(r) == watch_of_line(line@),
{
    match text_after(line, "|") {
        None => None,
        Some(right) => {
            let number = bar_number(line);
            let expression = match bar_expression(&text_trim(&right)) {
                Some(e) => e,
                None => Vec::new(),
            };
            if number > 0 && expression.len() > 0 {
                Some((number, expression))
            } else {
                None
            }
        },
    }
}

fn tests_have(tests: &Vec<TestResult>, name: &Vec<char>) -> (r: bool)
    ensures
        r == has_test(tests_view(tests@), name@),
{
    let mut i: usize = 0;
    while i < tests.len()
        invariant
            i <= tests.len(),
            forall|j: int| 0 <= j < i ==> (#[trigger] tests_view(tests@)[j]).name != name@,
        decreases tests.len() - i,
    {
        if text_eq(&chars_of(tests[i].name.as_str()), name) {
            assert(tests_view(tests@)[i as int].name == name@);
            return true;
        }
        i += 1;
    }
    false
}

fn watches_have(watches: &Vec<WatchResult>, line_number: usize) -> (r: bool)
    ensures
        r == has_watch(watches_view(watches@), line_number),
{
    let mut i: usize = 0;
    while i < watches.len()
        invariant
            i <= watches.len(),
            forall|j: int|
                0 <= j < i ==> (#[trigger] watches_view(watches@)[j]).line_number != line_number,
        decreases watches.len() - i,
    {
        if watches[i].line_number == line_number {
            assert(watches_view(watches@)[i as int].line_number == line_number);
            return true;
        }
        i += 1;
    }
    false
}

impl LineScan {
    /// A scan that has gathered nothing yet.
    pub fn new() -> (r: LineScan)
        ensures
            r@ == empty_scan(),
    {
        let r = LineScan {
            pending_test: None,
            pending_watch: None,
            tests: Vec::new(),
            watches: Vec::new(),
        };
        assert(tests_view(r.tests@) =~= Seq::<TestView>::empty());
        assert(watches_view(r.watches@) =~= Seq::<WatchView>::empty());
        r
    }

    fn settle_test(&mut self, passed: bool, message: &Vec<char>)
        ensures
            final(self)@ == settle_test(old(self)@, passed, message@),
    {
        let name = match self.pending_test.take() {
            Some(n) => n,
            None => chars_of("test"),
        };
        if !tests_have(&self.tests, &name) {
            let t = TestResult {
                name: string_of(&name),
                passed: passed,
                message: string_of(message),
            };
            assert(tests_view(self.tests@.push(t)) =~= tests_view(self.tests@).push(t@));
            self.tests.push(t);
        }
    }

    fn settle_watch(&mut self, line: &Vec<char>)
        ensures
            final(self)@ == settle_watch(old(self)@, line@),
    {
        let value = text_trim(line);
        if value.len() > 0 && !text_contains(&value, " | ") {
            match self.pending_watch.take() {
                Some((number, expression)) => {
                    if !watches_have(&self.watches, number) {
                        let w = WatchResult {
                            expression: string_of(&expression),
                            result: string_of(&value),
                            line_number: number,
                        };
                        assert(watches_view(self.watches@.push(w)) =~= watches_view(
                            self.watches@,
                        ).push(w@));
                        self.watches.push(w);
                    }
                },
                None => {},
            }
        }
    }

    /// Takes one more line of output.
    pub fn take_line(&mut self, line: &Vec<char>)
        ensures
            final(self)@ == scan_line(old(self)@, line@),
    {
        if text_contains(line, " | test>") {
            let name = test_name(line);
            if name.len() > 0 {
                self.pending_test = Some(name);
            }
        } else if line_is_pass(line) {
            let message = chars_of("Passed");
            self.settle_test(true, &message);
        } else if line_is_fail(line) {
            self.settle_test(false, line);
        } else if text_contains(line, " | ") && text_contains(line, "> ") && !text_contains(
            line,
            "test>",
        ) {
            match line_watch(line) {
                Some(w) => {
                    self.pending_watch = Some(w);
                },
                None => {},
            }
        } else if text_contains(line, "\u{29e9}") {
        } else {
            self.settle_watch(line);
        }
    }
}

/// What a single line says about a test's outcome: nothing for the test's
/// source line (it names the test, the outcome comes later) and for lines
/// without a mark; for a pass or fail mark a result under the placeholder name
/// `_pending_`, to be given the name from the source line.
pub open spec fn test_mark(s: Seq<char>) -> Option<TestView> {
    let t = trim(s);
    if is_test_line(t) && named_test(t).len() > 0 {
        None
    } else if is_pass_line(t) {
        Some(TestView { name: "_pending_"@, passed: true, message: "Passed"@ })
    } else if is_fail_line(t) {
        Some(TestView { name: "_pending_"@, passed: false, message: "Failed"@ })
    } else {
        None
    }
}

/// A test result as plain values, where there is one.
pub open spec fn test_option(r: Option<TestResult>) -> Option<TestView> {
    match r {
        Some(t) => Some(t@),
        None => None,
    }
}

/// A watch result as plain values, where there is one.
pub open spec fn watch_result_option(r: Option<WatchResult>) -> Option<WatchView> {
    match r {
        Some(w) => Some(w@),
        None => None,
    }
}

/// Reads the pass or fail mark of a single line of typecheck output.
pub fn parse_test_result(s: &str) -> (r: Option<TestResult>)
    ensures
        test_option(r) == test_mark(s@),
{
    let trimmed = text_trim(&chars_of(s));
    if text_contains(&trimmed, " | test>") && test_name(&trimmed).len() > 0 {
        None
    } else if line_is_pass(&trimmed) {
        Some(
            TestResult {
                name: "_pending_".to_owned(),
                passed: true,
                message: "Passed".to_owned(),
            },
        )
    } else if line_is_fail(&trimmed) {
        Some(
            TestResult {
                name: "_pending_".to_owned(),
                passed: false,
                message: "Failed".to_owned(),
            },
        )
    } else {
        None
    }
}

/// The line shows an expression after a bar.
pub open spec fn is_expression_line(s: Seq<char>) -> bool {
    contains(s, " | "@) && contains(s, "> "@)
}

/// What stands before the value of a watch expression.
pub struct WatchHead {
    pub number: usize,
    pub expression: Seq<char>,
    /// The index of the line with the marker, where there is one.
    pub arrow: Option<int>,
}

/// Reads on from line `i` up to the first marker line: each expression line
/// on the way sets the line number, and the expression where it shows one.
pub open spec fn watch_head(all: Seq<Seq<char>>, i: int, number: usize, expression: Seq<char>)
    -> WatchHead
    decreases all.len() - i,
{
    if i < 0 || i >= all.len() {
        WatchHead { number: number, expression: expression, arrow: None }
    } else if is_expression_line(all[i]) {
        match after_first(all[i], "|"@) {
            Some(right) => watch_head(
                all,
                i + 1,
                number_before_bar(all[i]),
                match expression_after_bar(trim(right)) {
                    Some(e) => e,
                    None => expression,
                },
            ),
            None => watch_head(all, i + 1, number, expression),
        }
    } else if is_arrow_line(all[i]) {
        WatchHead { number: number, expression: expression, arrow: Some(i) }
    } else {
        watch_head(all, i + 1, number, expression)
    }
}

/// The lines in `[from, n)`, trimmed, without those that are then empty.
pub open spec fn value_lines(all: Seq<Seq<char>>, from: int, n: int) -> Seq<Seq<char>>
    decreases n,
{
    if n <= from || n > all.len() || from < 0 {
        Seq::empty()
    } else if trim(all[n - 1]).len() > 0 {
        value_lines(all, from, n - 1).push(trim(all[n - 1]))
    } else {
        value_lines(all, from, n - 1)
    }
}

/// The watch expression that a piece of output shows: its source line, the
/// marker, and as its value every line after the marker that is not blank. It
/// shows none without a positive line number and an expression.
pub open spec fn watch_shown(s: Seq<char>) -> Option<WatchView> {
    let all = lines(s);
    let head = watch_head(all, 0, 0, Seq::empty());
    if head.number > 0 && head.expression.len() > 0 {
        Some(
            WatchView {
                expression: head.expression,
                result: match head.arrow {
                    Some(a) => join(value_lines(all, a + 1, all.len() as int), "\n"@),
                    None => Seq::empty(),
                },
                line_number: head.number,
            },
        )
    } else {
        None
    }
}

/// Reads one watch expression with its value from a piece of typecheck
/// output.
pub fn parse_watch_result(s: &str) -> (r: Option<WatchResult>)
    ensures
        watch_result_option(r) == watch_shown(s@),
{
    let all = text_lines(&chars_of(s));
    let mut number: usize = 0;
    let mut expression: Vec<char> = Vec::new();
    let mut arrow: Option<usize> = None;
    let mut i: usize = 0;
    while i < all.len()
        invariant_except_break
            arrow is None,
            watch_head(texts(all@), 0, 0, Seq::empty()) == watch_head(
                texts(all@),
                i as int,
                number,
                expression@,
            ),
        invariant
            i <= all.len(),
        ensures
            i <= all.len(),
            watch_head(texts(all@), 0, 0, Seq::empty()) == (WatchHead {
                number: number,
                expression: expression@,
                arrow: crate::text::index_of(arrow),
            }),
            arrow is Some ==> arrow->0 < all.len(),
        decreases all.len() - i,
    {
        if text_contains(&all[i], " | ") && text_contains(&all[i], "> ") {
            match text_after(&all[i], "|") {
                Some(right) => {
                    number = bar_number(&all[i]);
                    match bar_expression(&text_trim(&right)) {
                        Some(e) => {
                            expression = e;
                        },
                        None => {},
                    }
                },
                None => {},
            }
        } else if text_contains(&all[i], "\u{29e9}") {
            arrow = Some(i);
            break ;
        }
        i += 1;
    }
    let mut value: Vec<Vec<char>> = Vec::new();
    match arrow {
        Some(a) => {
            let mut j: usize = a + 1;
            while j < all.len()
                invariant
                    a + 1 <= j <= all.len(),
                    texts(value@) == value_lines(texts(all@), a + 1, j as int),
                decreases all.len() - j,
            {
                let t = text_trim(&all[j]);
                if t.len() > 0 {
                    assert(texts(value@.push(t)) =~= texts(value@).push(t@));
                    value.push(t);
                }
                j += 1;
            }
        },
        None => {},
    }
    if number > 0 && expression.len() > 0 {
        let result = match arrow {
            Some(a) => string_of(&text_join(&value, "\n")),
            None => String::new(),
        };
        Some(
            WatchResult {
                expression: string_of(&expression),
                result: result,
                line_number: number,
            },
        )
    } else {
        None
    }
}

/// How one test shows in the summary.
pub open spec fn test_report_line(t: TestView) -> Seq<char> {
    if t.passed {
        "\u{2705} "@ + t.name
    } else {
        "\u{1f6ab} "@ + t.name + "\n"@ + t.message
    }
}

/// How the tests show in the summary.
pub open spec fn test_report_lines(tests: Seq<TestView>) -> Seq<Seq<char>> {
    Seq::new(tests.len(), |i: int| test_report_line(tests[i]))
}

/// How one watch expression shows in the summary.
pub open spec fn watch_report_line(w: WatchView) -> Seq<char> {
    "> "@ + w.expression + "\n\u{21d2} "@ + w.result
}

/// How the watch expressions show in the summary.
pub open spec fn watch_report_lines(watches: Seq<WatchView>) -> Seq<Seq<char>> {
    Seq::new(watches.len(), |i: int| watch_report_line(watches[i]))
}

/// What typechecking came to.
pub struct TypecheckOutcome {
    pub output: Seq<char>,
    pub errors: Seq<Seq<char>>,
    pub watches: Seq<WatchView>,
    pub tests: Seq<TestView>,
}

/// What UCM's answer to a typecheck comes to, given what the answer parses
/// to as JSON.
///
/// An answer that is JSON holds `errorMessages` and `outputMessages`. The
/// output messages are scanned line by line for tests and watch expressions.
/// Error messages that are not empty make the outcome an error, with the
/// messages as its text. Without them the text lists the tests, or else the
/// watch expressions, or else says that the code typechecks. An answer that is
/// not JSON is passed on as it is: as the one error if the tool flagged an
/// error, as plain output otherwise.
pub open spec fn typecheck_outcome(parsed: Option<JsonValue>, raw: Seq<char>, is_error: bool)
    -> TypecheckOutcome {
    match parsed {
        Some(json) => {
            let errors = non_empty(member_texts(json, "errorMessages"@));
            let messages = member_texts(json, "outputMessages"@);
            let all = message_lines(messages, messages.len() as int);
            let st = scan_lines(all, all.len() as int, empty_scan());
            if errors.len() > 0 {
                TypecheckOutcome {
                    output: join(errors, "\n"@),
                    errors: errors,
                    watches: st.watches,
                    tests: st.tests,
                }
            } else {
                TypecheckOutcome {
                    output: if st.tests.len() > 0 {
                        join(test_report_lines(st.tests), "\n"@)
                    } else if st.watches.len() > 0 {
                        join(watch_report_lines(st.watches), "\n\n"@)
                    } else {
                        "Code typechecks successfully"@
                    },
                    errors: Seq::empty(),
                    watches: st.watches,
                    tests: st.tests,
                }
            }
        },
        None => TypecheckOutcome {
            output: raw,
            errors: if is_error {
                seq![raw]
            } else {
                Seq::empty()
            },
            watches: Seq::empty(),
            tests: Seq::empty(),
        },
    }
}

/// What was read from a typecheck's answer, as plain values.
pub open spec fn typecheck_outcome_of(
    r: (String, Vec<String>, Vec<WatchResult>, Vec<TestResult>),
) -> TypecheckOutcome {
    TypecheckOutcome {
        output: r.0@,
        errors: r.1.deep_view(),
        watches: watches_view(r.2@),
        tests: tests_view(r.3@),
    }
}

fn report_tests(tests: &Vec<TestResult>) -> (r: Vec<char>)
    ensures
        r@ == join(test_report_lines(tests_view(tests@)), "\n"@),
{
    let mut report: Vec<Vec<char>> = Vec::new();
    let mut i: usize = 0;
    while i < tests.len()
        invariant
            i <= tests.len(),
            report.len() == i,
            forall|k: int|
                0 <= k < i ==> (#[trigger] report@[k])@ == test_report_line(tests@[k]@),
        decreases tests.len() - i,
    {
        let mut line: Vec<char> = Vec::new();
        if tests[i].passed {
            append_str(&mut line, "\u{2705} ");
            append_str(&mut line, tests[i].name.as_str());
        } else {
            append_str(&mut line, "\u{1f6ab} ");
            append_str(&mut line, tests[i].name.as_str());
            append_str(&mut line, "\n");
            append_str(&mut line, tests[i].message.as_str());
        }
        assert(line@ =~= test_report_line(tests@[i as int]@));
        report.push(line);
        i += 1;
    }
    assert(texts(report@) =~= test_report_lines(tests_view(tests@)));
    text_join(&report, "\n")
}

fn report_watches(watches: &Vec<WatchResult>) -> (r: Vec<char>)
    ensures
        r@ == join(watch_report_lines(watches_view(watches@)), "\n\n"@),
{
    let mut report: Vec<Vec<char>> = Vec::new();
    let mut i: usize = 0;
    while i < watches.len()
        invariant
            i <= watches.len(),
            report.len() == i,
            forall|k: int|
                0 <= k < i ==> (#[trigger] report@[k])@ == watch_report_line(watches@[k]@),
        decreases watches.len() - i,
    {
        let mut line: Vec<char> = Vec::new();
        append_str(&mut line, "> ");
        append_str(&mut line, watches[i].expression.as_str());
        append_str(&mut line, "\n\u{21d2} ");
        append_str(&mut line, watches[i].result.as_str());
        assert(line@ =~= watch_report_line(watches@[i as int]@));
        report.push(line);
        i += 1;
    }
    assert(texts(report@) =~= watch_report_lines(watches_view(watches@)));
    text_join(&report, "\n\n")
}

/// All lines of the given messages, message after message.
pub fn lines_of_messages(messages: &Vec<Vec<char>>) -> (r: Vec<Vec<char>>)
    ensures
        texts(r@) == message_lines(texts(messages@), messages.len() as int),
{
    let mut all: Vec<Vec<char>> = Vec::new();
    let mut i: usize = 0;
    while i < messages.len()
        invariant
            i <= messages.len(),
            texts(all@) == message_lines(texts(messages@), i as int),
        decreases messages.len() - i,
    {
        let more = text_lines(&messages[i]);
        extend_texts(&mut all, more);
        i += 1;
    }
    all
}

/// Scans the lines in order, starting from nothing.
pub fn scan_output(all: &Vec<Vec<char>>) -> (r: LineScan)
    ensures
        r@ == scan_lines(texts(all@), all.len() as int, empty_scan()),
        distinct_tests(r@.tests),
        distinct_watches(r@.watches),
{
    let mut scan = LineScan::new();
    let mut i: usize = 0;
    while i < all.len()
        invariant
            i <= all.len(),
            scan@ == scan_lines(texts(all@), i as int, empty_scan()),
        decreases all.len() - i,
    {
        scan.take_line(&all[i]);
        i += 1;
    }
    proof {
        lemma_scan_keeps_distinct(texts(all@), all.len() as int, empty_scan());
    }
    scan
}

/// What UCM's answer to a typecheck comes to, given what it parsed to as
/// JSON (nothing, where it is not JSON). No test name has two results and no
/// source line two values.
pub fn typecheck_summary(parsed: Option<&Json>, raw_output: &str, is_error: bool) -> (r: (
    String,
    Vec<String>,
    Vec<WatchResult>,
    Vec<TestResult>,
))
    ensures
        typecheck_outcome_of(r) == typecheck_outcome(
            crate::json::json_option(parsed),
            raw_output@,
            is_error,
        ),
        distinct_tests(tests_view(r.3@)),
        distinct_watches(watches_view(r.2@)),
{
    match parsed {
        Some(json) => {
            let errors = texts_non_empty(&json.get_texts("errorMessages"));
            let messages = json.get_texts("outputMessages");
            let all = lines_of_messages(&messages);
            let scan = scan_output(&all);
            if errors.len() > 0 {
                let output = string_of(&text_join(&errors, "\n"));
                (output, strings_of(&errors), scan.watches, scan.tests)
            } else {
                let output = if scan.tests.len() > 0 {
                    string_of(&report_tests(&scan.tests))
                } else if scan.watches.len() > 0 {
                    string_of(&report_watches(&scan.watches))
                } else {
                    "Code typechecks successfully".to_owned()
                };
                let none: Vec<String> = Vec::new();
                assert(none.deep_view() =~= Seq::<Seq<char>>::empty());
                (output, none, scan.watches, scan.tests)
            }
        },
        None => {
            let mut errors: Vec<String> = Vec::new();
            if is_error {
                errors.push(raw_output.to_owned());
                assert(errors.deep_view() =~= seq![raw_output@]);
            } else {
                assert(errors.deep_view() =~= Seq::<Seq<char>>::empty());
            }
            let watches: Vec<WatchResult> = Vec::new();
            let tests: Vec<TestResult> = Vec::new();
            assert(watches_view(watches@) =~= Seq::<WatchView>::empty());
            assert(tests_view(tests@) =~= Seq::<TestView>::empty());
            (raw_output.to_owned(), errors, watches, tests)
        },
    }
}

/// What `serde_json` makes of a text, where it accepts it.
pub open spec fn parsed_value(text: Seq<char>) -> Option<JsonValue> {
    match crate::json::parsed_json(text) {
        Ok(v) => Some(v),
        Err(_) => None,
    }
}

/// Reads UCM's answer to a typecheck: the summary text, the errors, the
/// watch results and the test results.
pub fn parse_typecheck_output(raw_output: &str, is_error: bool) -> (r: (
    String,
    Vec<String>,
    Vec<WatchResult>,
    Vec<TestResult>,
))
    ensures
        typecheck_outcome_of(r) == typecheck_outcome(
            parsed_value(raw_output@),
            raw_output@,
            is_error,
        ),
        distinct_tests(tests_view(r.3@)),
        distinct_watches(watches_view(r.2@)),
{
    match crate::json::parse_json(raw_output) {
        Ok(json) => typecheck_summary(Some(&json), raw_output, is_error),
        Err(_) => typecheck_summary(None, raw_output, is_error),
    }
}

/// The line is a pass or fail mark.
pub open spec fn is_mark_line(s: Seq<char>) -> bool {
    !is_test_line(s) && (is_pass_line(s) || is_fail_line(s))
}

/// The name of the test that the next mark settles.
pub open spec fn awaited_test(st: ScanView) -> Seq<char> {
    match st.pending_test {
        Some(n) => n,
        None => "test"@,
    }
}

/// The name has exactly one result among the tests.
pub open spec fn has_one_result(tests: Seq<TestView>, name: Seq<char>) -> bool {
    exists|i: int|
        0 <= i < tests.len() && (#[trigger] tests[i]).name == name && forall|j: int|
            0 <= j < tests.len() && j != i ==> tests[j].name != name
}

/// Results are only ever added at the end: what one more line leaves behind
/// starts with what was there.
pub proof fn lemma_scan_line_keeps_results(st: ScanView, s: Seq<char>)
    ensures
        st.tests.len() <= scan_line(st, s).tests.len(),
        forall|i: int| 0 <= i < st.tests.len() ==> scan_line(st, s).tests[i] == st.tests[i],
{
}

/// The results after the first `a` lines are still there, in place, after
/// the first `b`.
pub proof fn lemma_scan_keeps_results(all: Seq<Seq<char>>, a: int, b: int, st: ScanView)
    requires
        0 <= a <= b <= all.len(),
    ensures
        scan_lines(all, a, st).tests.len() <= scan_lines(all, b, st).tests.len(),
        forall|i: int|
            0 <= i < scan_lines(all, a, st).tests.len() ==> scan_lines(all, b, st).tests[i]
                == scan_lines(all, a, st).tests[i],
    decreases b - a,
{
    if a < b {
        lemma_scan_keeps_results(all, a, b - 1, st);
        lemma_scan_line_keeps_results(scan_lines(all, b - 1, st), all[b - 1]);
    }
}

/// A test whose mark occurs in the output has exactly one result in the end,
/// however often the mark is repeated after it.
pub proof fn lemma_marked_test_has_one_result(all: Seq<Seq<char>>, k: int)
    requires
        0 <= k < all.len(),
        is_mark_line(all[k]),
    ensures
        has_one_result(
            scan_lines(all, all.len() as int, empty_scan()).tests,
            awaited_test(scan_lines(all, k, empty_scan())),
        ),
{
    let n = all.len() as int;
    let before = scan_lines(all, k, empty_scan());
    let after = scan_lines(all, k + 1, empty_scan());
    let end = scan_lines(all, n, empty_scan());
    let name = awaited_test(before);
    assert(after == scan_line(before, all[k]));
    assert(has_test(after.tests, name)) by {
        if has_test(before.tests, name) {
            let i = choose|i: int| 0 <= i < before.tests.len() && (#[trigger] before.tests[i]).name
                == name;
            assert(after.tests[i].name == name);
        } else {
            assert(after.tests[before.tests.len() as int].name == name);
        }
    }
    let i = choose|i: int| 0 <= i < after.tests.len() && (#[trigger] after.tests[i]).name == name;
    lemma_scan_keeps_results(all, k + 1, n, empty_scan());
    lemma_scan_keeps_distinct(all, n, empty_scan());
    assert(end.tests[i].name == name);
    assert forall|j: int| 0 <= j < end.tests.len() && j != i implies end.tests[j].name
        != name by {
        if j < i {
            assert(end.tests[j].name != end.tests[i].name);
        } else {
            assert(end.tests[i].name != end.tests[j].name);
        }
    }
}

/// The result is among the tests, and no other result has its name.
pub open spec fn is_the_one_result(tests: Seq<TestView>, result: TestView) -> bool {
    exists|i: int|
        0 <= i < tests.len() && (#[trigger] tests[i]) == result && forall|j: int|
            0 <= j < tests.len() && j != i ==> tests[j].name != result.name
}

/// Where a pass mark is the first mark to settle its test, the test's one
/// result in the end is that pass, however often the mark is repeated after
/// it.
pub proof fn lemma_first_pass_is_the_result(all: Seq<Seq<char>>, k: int)
    requires
        0 <= k < all.len(),
        !is_test_line(all[k]),
        is_pass_line(all[k]),
        !has_test(
            scan_lines(all, k, empty_scan()).tests,
            awaited_test(scan_lines(all, k, empty_scan())),
        ),
    ensures
        is_the_one_result(
            scan_lines(all, all.len() as int, empty_scan()).tests,
            TestView {
                name: awaited_test(scan_lines(all, k, empty_scan())),
                passed: true,
                message: "Passed"@,
            },
        ),
{
    let n = all.len() as int;
    let before = scan_lines(all, k, empty_scan());
    let after = scan_lines(all, k + 1, empty_scan());
    let end = scan_lines(all, n, empty_scan());
    let result = TestView { name: awaited_test(before), passed: true, message: "Passed"@ };
    let i = before.tests.len() as int;
    assert(after == scan_line(before, all[k]));
    assert(after.tests[i] == result);
    lemma_scan_keeps_results(all, k + 1, n, empty_scan());
    lemma_scan_keeps_distinct(all, n, empty_scan());
    assert(end.tests[i] == result);
    assert forall|j: int| 0 <= j < end.tests.len() && j != i implies end.tests[j].name
        != result.name by {
        if j < i {
            assert(end.tests[j].name != end.tests[i].name);
        } else {
            assert(end.tests[i].name != end.tests[j].name);
        }
    }
}

} // verus!
