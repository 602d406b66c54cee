//! The JSON-RPC client for a UCM instance run in MCP mode.
//!
//! Messages are JSON-RPC 2.0, one per line. The client here keeps the
//! protocol's state, writes each request line and reads each response into a
//! typed outcome; its owner runs the process and moves the lines.

use crate::decimal::decimal;
use crate::json::{
    as_flag, keys_ascend, lemma_less_at, member, member_items, member_keys, member_text,
    parse_json, parse_value, parsed_json, rendered, value_member, value_members, value_null,
    value_object, value_of_number, value_of_text, value_of_texts, value_text, value_tree, values,
    Json, JsonValue,
};
use crate::text::{append_str, chars_of, join, string_of, text_join, texts};
use crate::tool_output::{
    parse_run_function_output, parse_run_tests_output, parse_ucm_output, run_outcome,
    tests_outcome, update_outcome,
};
use crate::typecheck_output::{
    distinct_tests, distinct_watches, parse_typecheck_output, parsed_value, typecheck_outcome,
};
use crate::ucm_pty::str_option;
use vstd::prelude::*;

verus! {

/// The outcome of updating definitions in the codebase.
#[derive(Debug, Clone)]
pub struct UpdateResult {
    pub success: bool,
    pub output: String,
    pub errors: Vec<String>,
}

/// One test and whether it passed.
#[derive(Debug, Clone)]
pub struct TestResult {
    pub name: String,
    pub passed: bool,
    pub message: String,
}

/// A watch expression with the value it evaluated to.
#[derive(Debug, Clone)]
pub struct WatchResult {
    pub expression: String,
    pub result: String,
    pub line_number: usize,
}

/// The outcome of typechecking code, with the watch expressions and tests
/// that were evaluated on the way.
#[derive(Debug, Clone)]
pub struct TypecheckResult {
    pub success: bool,
    pub errors: Vec<String>,
    pub watch_results: Vec<WatchResult>,
    pub test_results: Vec<TestResult>,
    pub output: String,
}

/// The outcome of running the tests of the codebase.
#[derive(Debug, Clone)]
pub struct RunTestsResult {
    pub success: bool,
    pub output: String,
    pub errors: Vec<String>,
    pub test_results: Vec<TestResult>,
}

/// The outcome of running a function.
#[derive(Debug, Clone)]
pub struct RunFunctionResult {
    pub success: bool,
    pub stdout: String,
    pub stderr: String,
    pub output: String,
    pub errors: Vec<String>,
}

/// A test result as plain values.
pub struct TestView {
    pub name: Seq<char>,
    pub passed: bool,
    pub message: Seq<char>,
}

/// A watch result as plain values.
pub struct WatchView {
    pub expression: Seq<char>,
    pub result: Seq<char>,
    pub line_number: usize,
}

impl View for TestResult {
    type V = TestView;

    open spec fn view(&self) -> TestView {
        TestView { name: self.name@, passed: self.passed, message: self.message@ }
    }
}

impl View for WatchResult {
    type V = WatchView;

    open spec fn view(&self) -> WatchView {
        WatchView {
            expression: self.expression@,
            result: self.result@,
            line_number: self.line_number,
        }
    }
}

/// The test results as plain values.
pub open spec fn tests_view(v: Seq<TestResult>) -> Seq<TestView> {
    Seq::new(v.len(), |i: int| v[i]@)
}

/// The watch results as plain values.
pub open spec fn watches_view(v: Seq<WatchResult>) -> Seq<WatchView> {
    Seq::new(v.len(), |i: int| v[i]@)
}

/// The outcome of an update as plain values.
pub struct UpdateView {
    pub success: bool,
    pub output: Seq<char>,
    pub errors: Seq<Seq<char>>,
}

/// The outcome of a typecheck as plain values.
pub struct TypecheckView {
    pub success: bool,
    pub errors: Seq<Seq<char>>,
    pub watch_results: Seq<WatchView>,
    pub test_results: Seq<TestView>,
    pub output: Seq<char>,
}

/// The outcome of a run of the tests as plain values.
pub struct RunTestsView {
    pub success: bool,
    pub output: Seq<char>,
    pub errors: Seq<Seq<char>>,
    pub test_results: Seq<TestView>,
}

/// The outcome of a run of a function as plain values.
pub struct RunFunctionView {
    pub success: bool,
    pub stdout: Seq<char>,
    pub stderr: Seq<char>,
    pub output: Seq<char>,
    pub errors: Seq<Seq<char>>,
}

impl View for UpdateResult {
    type V = UpdateView;

    open spec fn view(&self) -> UpdateView {
        UpdateView { success: self.success, output: self.output@, errors: self.errors.deep_view() }
    }
}

impl View for TypecheckResult {
    type V = TypecheckView;

    open spec fn view(&self) -> TypecheckView {
        TypecheckView {
            success: self.success,
            errors: self.errors.deep_view(),
            watch_results: watches_view(self.watch_results@),
            test_results: tests_view(self.test_results@),
            output: self.output@,
        }
    }
}

impl View for RunTestsResult {
    type V = RunTestsView;

    open spec fn view(&self) -> RunTestsView {
        RunTestsView {
            success: self.success,
            output: self.output@,
            errors: self.errors.deep_view(),
            test_results: tests_view(self.test_results@),
        }
    }
}

impl View for RunFunctionResult {
    type V = RunFunctionView;

    open spec fn view(&self) -> RunFunctionView {
        RunFunctionView {
            success: self.success,
            stdout: self.stdout@,
            stderr: self.stderr@,
            output: self.output@,
            errors: self.errors.deep_view(),
        }
    }
}

/// An object value with the given members.
pub open spec fn object(members: Seq<(Seq<char>, JsonValue)>) -> JsonValue {
    JsonValue::Object(members)
}

/// A string value with the given text.
pub open spec fn text(s: Seq<char>) -> JsonValue {
    JsonValue::Text(s)
}

/// The project and branch that a tool call is about.
pub open spec fn project_context(project: Seq<char>, branch: Seq<char>) -> JsonValue {
    object(seq![("branchName"@, text(branch)), ("projectName"@, text(project))])
}

/// The arguments of `update-definitions`.
pub open spec fn update_arguments(code: Seq<char>, project: Seq<char>, branch: Seq<char>)
    -> JsonValue {
    object(
        seq![
            ("code"@, object(seq![("text"@, text(code))])),
            ("projectContext"@, project_context(project, branch)),
        ],
    )
}

/// The arguments of `typecheck-code`.
pub open spec fn typecheck_arguments(code: Seq<char>, project: Seq<char>, branch: Seq<char>)
    -> JsonValue {
    object(
        seq![
            ("code"@, object(seq![("sourceCode"@, text(code))])),
            ("projectContext"@, project_context(project, branch)),
        ],
    )
}

/// The arguments of `run-tests`, with the namespace to run in where one is
/// given.
pub open spec fn run_tests_arguments(
    project: Seq<char>,
    branch: Seq<char>,
    subnamespace: Option<Seq<char>>,
) -> JsonValue {
    match subnamespace {
        Some(ns) => object(
            seq![("projectContext"@, project_context(project, branch)), ("subnamespace"@, text(ns))],
        ),
        None => object(seq![("projectContext"@, project_context(project, branch))]),
    }
}

/// The arguments of `run`.
pub open spec fn run_arguments(
    function: Seq<char>,
    project: Seq<char>,
    branch: Seq<char>,
    args: Seq<Seq<char>>,
) -> JsonValue {
    object(
        seq![
            ("args"@, JsonValue::Array(Seq::new(args.len(), |i: int| text(args[i])))),
            ("mainFunctionName"@, text(function)),
            ("projectContext"@, project_context(project, branch)),
        ],
    )
}

/// The request that calls a tool.
pub open spec fn tool_call(id: u64, name: Seq<char>, arguments: JsonValue) -> JsonValue {
    object(
        seq![
            ("id"@, JsonValue::Number(decimal(id as nat))),
            ("jsonrpc"@, text("2.0"@)),
            ("method"@, text("tools/call"@)),
            ("params"@, object(seq![("arguments"@, arguments), ("name"@, text(name))])),
        ],
    )
}

/// The request that opens the protocol.
pub open spec fn initialize_request(id: u64) -> JsonValue {
    object(
        seq![
            ("id"@, JsonValue::Number(decimal(id as nat))),
            ("jsonrpc"@, text("2.0"@)),
            ("method"@, text("initialize"@)),
            (
                "params"@,
                object(
                    seq![
                        ("capabilities"@, object(Seq::empty())),
                        (
                            "clientInfo"@,
                            object(
                                seq![
                                    ("name"@, text("unison-editor"@)),
                                    ("version"@, text("0.1.0"@)),
                                ],
                            ),
                        ),
                        ("protocolVersion"@, text("2024-11-05"@)),
                    ],
                ),
            ),
        ],
    )
}

/// The notification that follows a successful `initialize`.
pub open spec fn initialized_notification() -> JsonValue {
    object(seq![("jsonrpc"@, text("2.0"@)), ("method"@, text("notifications/initialized"@))])
}

/// A message as it goes over the wire: compact JSON on one line.
pub open spec fn message_line(message: JsonValue) -> Seq<char> {
    rendered(message) + "\n"@
}

fn field(key: &str, value: serde_json::Value) -> (r: (String, serde_json::Value))
    ensures
        r.0@ == key@,
        r.1 == value,
{
    (key.to_owned(), value)
}

fn context_node(project: &str, branch: &str) -> (r: serde_json::Value)
    ensures
        value_tree(r) == project_context(project@, branch@),
{
    let mut members: Vec<(String, serde_json::Value)> = Vec::new();
    members.push(field("branchName", value_of_text(branch)));
    members.push(field("projectName", value_of_text(project)));
    proof {
        reveal_strlit("branchName");
        reveal_strlit("projectName");
        lemma_less_at("branchName"@, "projectName"@, 0);
        assert(keys_ascend(member_keys(members@)));
        assert(value_members(members@) =~= seq![
            ("branchName"@, text(branch@)),
            ("projectName"@, text(project@)),
        ]);
    }
    value_object(members)
}

fn single(key: &str, value: serde_json::Value) -> (r: serde_json::Value)
    ensures
        value_tree(r) == object(seq![(key@, value_tree(value))]),
{
    let mut members: Vec<(String, serde_json::Value)> = Vec::new();
    members.push(field(key, value));
    proof {
        assert(keys_ascend(member_keys(members@)));
        assert(value_members(members@) =~= seq![(key@, value_tree(value))]);
    }
    value_object(members)
}

fn code_and_context(code: serde_json::Value, context: serde_json::Value) -> (r: serde_json::Value)
    ensures
        value_tree(r) == object(
            seq![("code"@, value_tree(code)), ("projectContext"@, value_tree(context))],
        ),
{
    let mut members: Vec<(String, serde_json::Value)> = Vec::new();
    members.push(field("code", code));
    members.push(field("projectContext", context));
    proof {
        reveal_strlit("code");
        reveal_strlit("projectContext");
        lemma_less_at("code"@, "projectContext"@, 0);
        assert(keys_ascend(member_keys(members@)));
        assert(value_members(members@) =~= seq![
            ("code"@, value_tree(code)),
            ("projectContext"@, value_tree(context)),
        ]);
    }
    value_object(members)
}

/// The arguments of `update-definitions`.
pub fn update_definitions_arguments(code: &str, project_name: &str, branch_name: &str) -> (r:
    serde_json::Value)
    ensures
        value_tree(r) == update_arguments(code@, project_name@, branch_name@),
{
    code_and_context(
        single("text", value_of_text(code)),
        context_node(project_name, branch_name),
    )
}

/// The arguments of `typecheck-code`.
pub fn typecheck_code_arguments(code: &str, project_name: &str, branch_name: &str) -> (r:
    serde_json::Value)
    ensures
        value_tree(r) == typecheck_arguments(code@, project_name@, branch_name@),
{
    code_and_context(
        single("sourceCode", value_of_text(code)),
        context_node(project_name, branch_name),
    )
}

/// The arguments of `run-tests`.
pub fn run_tests_call_arguments(
    project_name: &str,
    branch_name: &str,
    subnamespace: Option<&str>,
) -> (r: serde_json::Value)
    ensures
        value_tree(r) == run_tests_arguments(project_name@, branch_name@, str_option(subnamespace)),
{
    let mut members: Vec<(String, serde_json::Value)> = Vec::new();
    members.push(field("projectContext", context_node(project_name, branch_name)));
    match subnamespace {
        Some(ns) => {
            members.push(field("subnamespace", value_of_text(ns)));
            proof {
                reveal_strlit("projectContext");
                reveal_strlit("subnamespace");
                lemma_less_at("projectContext"@, "subnamespace"@, 0);
                assert(keys_ascend(member_keys(members@)));
                assert(value_members(members@) =~= seq![
                    ("projectContext"@, project_context(project_name@, branch_name@)),
                    ("subnamespace"@, text(ns@)),
                ]);
            }
        },
        None => {
            proof {
                assert(keys_ascend(member_keys(members@)));
                assert(value_members(members@) =~= seq![
                    ("projectContext"@, project_context(project_name@, branch_name@)),
                ]);
            }
        },
    }
    value_object(members)
}

/// The arguments of `run`.
pub fn run_function_arguments(
    function_name: &str,
    project_name: &str,
    branch_name: &str,
    args: &Vec<String>,
) -> (r: serde_json::Value)
    ensures
        value_tree(r) == run_arguments(
            function_name@,
            project_name@,
            branch_name@,
            args.deep_view(),
        ),
{
    let list = value_of_texts(args);
    assert(value_tree(list) == JsonValue::Array(
        Seq::new(args.deep_view().len(), |i: int| text(args.deep_view()[i])),
    )) by {
        assert(Seq::new(args@.len(), |i: int| JsonValue::Text(args@[i]@)) =~= Seq::new(
            args.deep_view().len(),
            |i: int| text(args.deep_view()[i]),
        ));
    }
    let mut members: Vec<(String, serde_json::Value)> = Vec::new();
    members.push(field("args", list));
    members.push(field("mainFunctionName", value_of_text(function_name)));
    members.push(field("projectContext", context_node(project_name, branch_name)));
    proof {
        reveal_strlit("args");
        reveal_strlit("mainFunctionName");
        reveal_strlit("projectContext");
        lemma_less_at("args"@, "mainFunctionName"@, 0);
        lemma_less_at("args"@, "projectContext"@, 0);
        lemma_less_at("mainFunctionName"@, "projectContext"@, 0);
        assert(keys_ascend(member_keys(members@)));
        assert(value_members(members@) =~= seq![
            ("args"@, value_tree(list)),
            ("mainFunctionName"@, text(function_name@)),
            ("projectContext"@, project_context(project_name@, branch_name@)),
        ]);
    }
    value_object(members)
}

/// The keys of a request rise in the order of `String`.
proof fn lemma_request_keys()
    ensures
        keys_ascend(seq!["id"@, "jsonrpc"@, "method"@, "params"@]),
        keys_ascend(seq!["jsonrpc"@, "method"@]),
{
    reveal_strlit("id");
    reveal_strlit("jsonrpc");
    reveal_strlit("method");
    reveal_strlit("params");
    lemma_less_at("id"@, "jsonrpc"@, 0);
    lemma_less_at("id"@, "method"@, 0);
    lemma_less_at("id"@, "params"@, 0);
    lemma_less_at("jsonrpc"@, "method"@, 0);
    lemma_less_at("jsonrpc"@, "params"@, 0);
    lemma_less_at("method"@, "params"@, 0);
}

fn request_node(id: u64, method: &str, params: serde_json::Value) -> (r: serde_json::Value)
    ensures
        value_tree(r) == object(
            seq![
                ("id"@, JsonValue::Number(decimal(id as nat))),
                ("jsonrpc"@, text("2.0"@)),
                ("method"@, text(method@)),
                ("params"@, value_tree(params)),
            ],
        ),
{
    let mut members: Vec<(String, serde_json::Value)> = Vec::new();
    members.push(field("id", value_of_number(id)));
    members.push(field("jsonrpc", value_of_text("2.0")));
    members.push(field("method", value_of_text(method)));
    members.push(field("params", params));
    proof {
        lemma_request_keys();
        assert(member_keys(members@) =~= seq!["id"@, "jsonrpc"@, "method"@, "params"@]);
        assert(value_members(members@) =~= seq![
            ("id"@, JsonValue::Number(decimal(id as nat))),
            ("jsonrpc"@, text("2.0"@)),
            ("method"@, text(method@)),
            ("params"@, value_tree(params)),
        ]);
    }
    value_object(members)
}

fn tool_call_node(id: u64, tool_name: &str, arguments: serde_json::Value) -> (r: serde_json::Value)
    ensures
        value_tree(r) == tool_call(id, tool_name@, value_tree(arguments)),
{
    let mut params: Vec<(String, serde_json::Value)> = Vec::new();
    params.push(field("arguments", arguments));
    params.push(field("name", value_of_text(tool_name)));
    proof {
        reveal_strlit("arguments");
        reveal_strlit("name");
        lemma_less_at("arguments"@, "name"@, 0);
        assert(keys_ascend(member_keys(params@)));
        assert(value_members(params@) =~= seq![
            ("arguments"@, value_tree(arguments)),
            ("name"@, text(tool_name@)),
        ]);
    }
    request_node(id, "tools/call", value_object(params))
}

fn initialize_node(id: u64) -> (r: serde_json::Value)
    ensures
        value_tree(r) == initialize_request(id),
{
    let mut info: Vec<(String, serde_json::Value)> = Vec::new();
    info.push(field("name", value_of_text("unison-editor")));
    info.push(field("version", value_of_text("0.1.0")));
    proof {
        reveal_strlit("name");
        reveal_strlit("version");
        lemma_less_at("name"@, "version"@, 0);
        assert(keys_ascend(member_keys(info@)));
        assert(value_members(info@) =~= seq![
            ("name"@, text("unison-editor"@)),
            ("version"@, text("0.1.0"@)),
        ]);
    }
    let none: Vec<(String, serde_json::Value)> = Vec::new();
    proof {
        assert(keys_ascend(member_keys(none@)));
        assert(value_members(none@) =~= Seq::<(Seq<char>, JsonValue)>::empty());
    }
    let mut params: Vec<(String, serde_json::Value)> = Vec::new();
    params.push(field("capabilities", value_object(none)));
    params.push(field("clientInfo", value_object(info)));
    params.push(field("protocolVersion", value_of_text("2024-11-05")));
    proof {
        reveal_strlit("capabilities");
        reveal_strlit("clientInfo");
        reveal_strlit("protocolVersion");
        lemma_less_at("capabilities"@, "clientInfo"@, 1);
        lemma_less_at("capabilities"@, "protocolVersion"@, 0);
        lemma_less_at("clientInfo"@, "protocolVersion"@, 0);
        assert(keys_ascend(member_keys(params@)));
        assert(value_members(params@) =~= seq![
            ("capabilities"@, object(Seq::empty())),
            (
                "clientInfo"@,
                object(seq![("name"@, text("unison-editor"@)), ("version"@, text("0.1.0"@))]),
            ),
            ("protocolVersion"@, text("2024-11-05"@)),
        ]);
    }
    request_node(id, "initialize", value_object(params))
}

fn notification_node() -> (r: serde_json::Value)
    ensures
        value_tree(r) == initialized_notification(),
{
    let mut members: Vec<(String, serde_json::Value)> = Vec::new();
    members.push(field("jsonrpc", value_of_text("2.0")));
    members.push(field("method", value_of_text("notifications/initialized")));
    proof {
        lemma_request_keys();
        assert(member_keys(members@) =~= seq!["jsonrpc"@, "method"@]);
        assert(value_members(members@) =~= seq![
            ("jsonrpc"@, text("2.0"@)),
            ("method"@, text("notifications/initialized"@)),
        ]);
    }
    value_object(members)
}

fn line_of(message: &serde_json::Value) -> (r: String)
    ensures
        r@ == message_line(value_tree(*message)),
{
    let mut out: Vec<char> = Vec::new();
    append_str(&mut out, value_text(message).as_str());
    append_str(&mut out, "\n");
    assert(out@ =~= message_line(value_tree(*message)));
    string_of(&out)
}

/// What a response to a tool call holds.
pub enum AnswerView {
    /// The call failed with this message.
    Failed(Seq<char>),
    /// The tool ran and printed this, flagged as an error or not.
    Output { is_error: bool, raw: Seq<char> },
    /// The response holds neither an error nor a result.
    Invalid,
}

/// The texts of the string members `key` of the first `n` items, in order.
pub open spec fn item_member_texts(items: Seq<JsonValue>, key: Seq<char>, n: int) -> Seq<
    Seq<char>,
>
    decreases n,
{
    if n <= 0 || n > items.len() {
        Seq::empty()
    } else {
        match member_text(items[n - 1], key) {
            Some(s) => item_member_texts(items, key, n - 1).push(s),
            None => item_member_texts(items, key, n - 1),
        }
    }
}

/// The text that a tool result carries: the `text` of each item of its
/// `content`, one per line.
pub open spec fn content_text(result: JsonValue) -> Seq<char> {
    let items = member_items(result, "content"@);
    join(item_member_texts(items, "text"@, items.len() as int), "\n"@)
}

/// Whether a tool result is flagged as an error.
pub open spec fn flagged_error(result: JsonValue) -> bool {
    match member(result, "isError"@) {
        Some(f) => match as_flag(f) {
            Some(b) => b,
            None => false,
        },
        None => false,
    }
}

/// What a response to a tool call holds. An `error` member wins; its
/// `message`, where it is a string, is the failure's message.
pub open spec fn tool_answer(response: JsonValue) -> AnswerView {
    match member(response, "error"@) {
        Some(err) => AnswerView::Failed(
            match member_text(err, "message"@) {
                Some(m) => m,
                None => "Unknown error"@,
            },
        ),
        None => match member(response, "result"@) {
            Some(result) => AnswerView::Output {
                is_error: flagged_error(result),
                raw: content_text(result),
            },
            None => AnswerView::Invalid,
        },
    }
}

/// What a response to a tool call holds.
#[derive(Debug)]
pub enum ToolAnswer {
    Failed(String),
    Output { is_error: bool, raw: String },
    Invalid,
}

impl View for ToolAnswer {
    type V = AnswerView;

    open spec fn view(&self) -> AnswerView {
        match self {
            ToolAnswer::Failed(m) => AnswerView::Failed(m@),
            ToolAnswer::Output { is_error, raw } => AnswerView::Output {
                is_error: *is_error,
                raw: raw@,
            },
            ToolAnswer::Invalid => AnswerView::Invalid,
        }
    }
}

fn result_content(result: &Json) -> (r: String)
    ensures
        r@ == content_text(result@),
{
    let mut parts: Vec<Vec<char>> = Vec::new();
    let items = match result.get("content") {
        Some(m) => match m.as_array() {
            Some(items) => items,
            None => {
                assert(texts(parts@) =~= Seq::<Seq<char>>::empty());
                return string_of(&text_join(&parts, "\n"));
            },
        },
        None => {
            assert(texts(parts@) =~= Seq::<Seq<char>>::empty());
            return string_of(&text_join(&parts, "\n"));
        },
    };
    let mut i: usize = 0;
    while i < items.len()
        invariant
            i <= items.len(),
            member_items(result@, "content"@) == values(items@),
            texts(parts@) == item_member_texts(values(items@), "text"@, i as int),
        decreases items.len() - i,
    {
        match items[i].get_str("text") {
            Some(s) => {
                let t = chars_of(s);
                assert(texts(parts@.push(t)) =~= texts(parts@).push(t@));
                parts.push(t);
            },
            None => {},
        }
        i += 1;
    }
    string_of(&text_join(&parts, "\n"))
}

/// Reads a response to a tool call.
pub fn read_tool_answer(response: &Json) -> (r: ToolAnswer)
    ensures
        r@ == tool_answer(response@),
{
    match response.get("error") {
        Some(err) => {
            let message = match err.get_str("message") {
                Some(m) => m.to_owned(),
                None => "Unknown error".to_owned(),
            };
            ToolAnswer::Failed(message)
        },
        None => match response.get("result") {
            Some(result) => {
                let is_error = match result.get("isError") {
                    Some(f) => match f.as_bool() {
                        Some(b) => b,
                        None => false,
                    },
                    None => false,
                };
                ToolAnswer::Output { is_error: is_error, raw: result_content(result) }
            },
            None => ToolAnswer::Invalid,
        },
    }
}

/// What is said of a response that holds neither an error nor a result.
pub open spec fn missing_result() -> Seq<char> {
    "Invalid MCP response: missing result"@
}

/// The outcome of an update that a response reports. A failed call and a
/// failed update are outcomes, not errors; only a response without error and
/// result is refused.
pub open spec fn update_result_of(response: JsonValue) -> Result<UpdateView, Seq<char>> {
    match tool_answer(response) {
        AnswerView::Failed(m) => Ok(
            UpdateView { success: false, output: Seq::empty(), errors: seq![m] },
        ),
        AnswerView::Output { is_error, raw } => {
            let o = update_outcome(parsed_value(raw), raw, is_error);
            Ok(UpdateView { success: !is_error && o.1.len() == 0, output: o.0, errors: o.1 })
        },
        AnswerView::Invalid => Err(missing_result()),
    }
}

/// The outcome of a typecheck that a response reports.
pub open spec fn typecheck_result_of(response: JsonValue) -> Result<TypecheckView, Seq<char>> {
    match tool_answer(response) {
        AnswerView::Failed(m) => Ok(
            TypecheckView {
                success: false,
                errors: seq![m],
                watch_results: Seq::empty(),
                test_results: Seq::empty(),
                output: Seq::empty(),
            },
        ),
        AnswerView::Output { is_error, raw } => {
            let o = typecheck_outcome(parsed_value(raw), raw, is_error);
            Ok(
                TypecheckView {
                    success: !is_error && o.errors.len() == 0,
                    errors: o.errors,
                    watch_results: o.watches,
                    test_results: o.tests,
                    output: o.output,
                },
            )
        },
        AnswerView::Invalid => Err(missing_result()),
    }
}

/// The outcome of a run of the tests that a response reports.
pub open spec fn run_tests_result_of(response: JsonValue) -> Result<RunTestsView, Seq<char>> {
    match tool_answer(response) {
        AnswerView::Failed(m) => Ok(
            RunTestsView {
                success: false,
                output: Seq::empty(),
                errors: seq![m],
                test_results: Seq::empty(),
            },
        ),
        AnswerView::Output { is_error, raw } => {
            let o = tests_outcome(parsed_value(raw), raw, is_error);
            Ok(
                RunTestsView {
                    success: !is_error && o.errors.len() == 0,
                    output: o.output,
                    errors: o.errors,
                    test_results: o.tests,
                },
            )
        },
        AnswerView::Invalid => Err(missing_result()),
    }
}

/// The outcome of a run of a function that a response reports.
pub open spec fn run_function_result_of(response: JsonValue) -> Result<
    RunFunctionView,
    Seq<char>,
> {
    match tool_answer(response) {
        AnswerView::Failed(m) => Ok(
            RunFunctionView {
                success: false,
                stdout: Seq::empty(),
                stderr: Seq::empty(),
                output: Seq::empty(),
                errors: seq![m],
            },
        ),
        AnswerView::Output { is_error, raw } => {
            let o = run_outcome(parsed_value(raw), raw, is_error);
            Ok(
                RunFunctionView {
                    success: !is_error && o.errors.len() == 0,
                    stdout: o.stdout,
                    stderr: o.stderr,
                    output: o.output,
                    errors: o.errors,
                },
            )
        },
        AnswerView::Invalid => Err(missing_result()),
    }
}

/// The outcome of reading an update's response as plain values.
pub open spec fn update_view(r: Result<UpdateResult, String>) -> Result<UpdateView, Seq<char>> {
    match r {
        Ok(x) => Ok(x@),
        Err(e) => Err(e@),
    }
}

/// The outcome of reading a typecheck's response as plain values.
pub open spec fn typecheck_view(r: Result<TypecheckResult, String>) -> Result<
    TypecheckView,
    Seq<char>,
> {
    match r {
        Ok(x) => Ok(x@),
        Err(e) => Err(e@),
    }
}

/// The outcome of reading a test run's response as plain values.
pub open spec fn run_tests_view(r: Result<RunTestsResult, String>) -> Result<
    RunTestsView,
    Seq<char>,
> {
    match r {
        Ok(x) => Ok(x@),
        Err(e) => Err(e@),
    }
}

/// The outcome of reading a run's response as plain values.
pub open spec fn run_function_view(r: Result<RunFunctionResult, String>) -> Result<
    RunFunctionView,
    Seq<char>,
> {
    match r {
        Ok(x) => Ok(x@),
        Err(e) => Err(e@),
    }
}

fn one_error(message: String) -> (r: Vec<String>)
    ensures
        r.deep_view() == seq![message@],
{
    let mut errors: Vec<String> = Vec::new();
    errors.push(message);
    assert(errors.deep_view() =~= seq![message@]);
    errors
}

/// Reads the outcome of `update-definitions` from its response.
pub fn update_result(response: &Json) -> (r: Result<UpdateResult, String>)
    ensures
        update_view(r) == update_result_of(response@),
{
    match read_tool_answer(response) {
        ToolAnswer::Failed(message) => Ok(
            UpdateResult { success: false, output: String::new(), errors: one_error(message) },
        ),
        ToolAnswer::Output { is_error, raw } => {
            let (output, errors) = parse_ucm_output(raw.as_str(), is_error);
            let success = !is_error && errors.len() == 0;
            Ok(UpdateResult { success: success, output: output, errors: errors })
        },
        ToolAnswer::Invalid => Err("Invalid MCP response: missing result".to_owned()),
    }
}

/// Reads the outcome of `typecheck-code` from its response. No test name has
/// two results in it.
pub fn typecheck_result(response: &Json) -> (r: Result<TypecheckResult, String>)
    ensures
        typecheck_view(r) == typecheck_result_of(response@),
        r matches Ok(t) ==> distinct_tests(t@.test_results) && distinct_watches(
            t@.watch_results,
        ),
{
    match read_tool_answer(response) {
        ToolAnswer::Failed(message) => {
            let watches: Vec<WatchResult> = Vec::new();
            let tests: Vec<TestResult> = Vec::new();
            assert(watches_view(watches@) =~= Seq::<WatchView>::empty());
            assert(tests_view(tests@) =~= Seq::<TestView>::empty());
            Ok(
                TypecheckResult {
                    success: false,
                    errors: one_error(message),
                    watch_results: watches,
                    test_results: tests,
                    output: String::new(),
                },
            )
        },
        ToolAnswer::Output { is_error, raw } => {
            let (output, errors, watches, tests) = parse_typecheck_output(raw.as_str(), is_error);
            let success = !is_error && errors.len() == 0;
            Ok(
                TypecheckResult {
                    success: success,
                    errors: errors,
                    watch_results: watches,
                    test_results: tests,
                    output: output,
                },
            )
        },
        ToolAnswer::Invalid => Err("Invalid MCP response: missing result".to_owned()),
    }
}

/// Reads the outcome of `run-tests` from its response.
pub fn run_tests_result(response: &Json) -> (r: Result<RunTestsResult, String>)
    ensures
        run_tests_view(r) == run_tests_result_of(response@),
{
    match read_tool_answer(response) {
        ToolAnswer::Failed(message) => {
            let tests: Vec<TestResult> = Vec::new();
            assert(tests_view(tests@) =~= Seq::<TestView>::empty());
            Ok(
                RunTestsResult {
                    success: false,
                    output: String::new(),
                    errors: one_error(message),
                    test_results: tests,
                },
            )
        },
        ToolAnswer::Output { is_error, raw } => {
            let (output, errors, tests) = parse_run_tests_output(raw.as_str(), is_error);
            let success = !is_error && errors.len() == 0;
            Ok(
                RunTestsResult {
                    success: success,
                    output: output,
                    errors: errors,
                    test_results: tests,
                },
            )
        },
        ToolAnswer::Invalid => Err("Invalid MCP response: missing result".to_owned()),
    }
}

/// Reads the outcome of `run` from its response.
pub fn run_function_result(response: &Json) -> (r: Result<RunFunctionResult, String>)
    ensures
        run_function_view(r) == run_function_result_of(response@),
{
    match read_tool_answer(response) {
        ToolAnswer::Failed(message) => Ok(
            RunFunctionResult {
                success: false,
                stdout: String::new(),
                stderr: String::new(),
                output: String::new(),
                errors: one_error(message),
            },
        ),
        ToolAnswer::Output { is_error, raw } => {
            let (stdout, stderr, output, errors) = parse_run_function_output(
                raw.as_str(),
                is_error,
            );
            let success = !is_error && errors.len() == 0;
            Ok(
                RunFunctionResult {
                    success: success,
                    stdout: stdout,
                    stderr: stderr,
                    output: output,
                    errors: errors,
                },
            )
        },
        ToolAnswer::Invalid => Err("Invalid MCP response: missing result".to_owned()),
    }
}

/// The protocol state of a client as plain values.
pub struct ClientView {
    /// The id that the next request will carry.
    pub next_id: u64,
    /// The opening handshake has succeeded.
    pub initialized: bool,
    /// A request has been written whose response has not been taken.
    pub awaiting: bool,
    pub closed: bool,
}

/// The client may issue a tool call: it is initialized, open, and no request
/// is outstanding.
pub open spec fn ready(c: ClientView) -> bool {
    c.initialized && !c.awaiting && !c.closed
}

/// The id after `id`; the counter wraps at the end of its range.
pub open spec fn id_after(id: u64) -> u64 {
    if id == u64::MAX {
        0
    } else {
        (id + 1) as u64
    }
}

/// The client after it has written a request.
pub open spec fn after_request(c: ClientView) -> ClientView {
    ClientView { next_id: id_after(c.next_id), awaiting: true, ..c }
}

/// Why a client that is not ready refuses a tool call. The handshake is
/// asked about first: a client that was never initialized says so even when
/// it is closed.
pub open spec fn refusal(c: ClientView) -> Seq<char> {
    if !c.initialized {
        "MCP client not initialized"@
    } else if c.closed {
        "MCP client is closed"@
    } else {
        "MCP request already in progress"@
    }
}

/// What is said of a response line that is not JSON.
pub open spec fn parse_failure(error: Seq<char>, line: Seq<char>) -> Seq<char> {
    "Failed to parse response: "@ + error + " (raw: "@ + line + ")"@
}

/// What is said of a response that nothing was waiting for.
pub open spec fn unexpected_response() -> Seq<char> {
    "MCP client is not waiting for a response"@
}

/// What is said of an `initialize` that the server answered with an error:
/// the error's `message` as JSON, `null` where it has none.
pub open spec fn initialization_failure(error: JsonValue) -> Seq<char> {
    "MCP initialization failed: "@ + rendered(
        match member(error, "message"@) {
            Some(m) => m,
            None => JsonValue::Null,
        },
    )
}

/// The client is waiting for the answer to its `initialize`.
pub open spec fn opening(c: ClientView) -> bool {
    c.awaiting && !c.initialized && !c.closed
}

/// What the answer to `initialize` leads to: the notification line to send,
/// or the reason why the client cannot be used.
pub open spec fn initialize_outcome(c: ClientView, line: Seq<char>) -> Result<
    Seq<char>,
    Seq<char>,
> {
    if !opening(c) {
        Err(unexpected_response())
    } else {
        match parsed_json(line) {
            Err(e) => Err(parse_failure(e, line)),
            Ok(response) => match member(response, "error"@) {
                Some(err) => Err(initialization_failure(err)),
                None => Ok(message_line(initialized_notification())),
            },
        }
    }
}

/// The client after the answer to `initialize`: no longer waiting, and
/// initialized exactly when the answer was a success.
pub open spec fn after_initialize(c: ClientView, line: Seq<char>) -> ClientView {
    if !opening(c) {
        c
    } else {
        ClientView { awaiting: false, initialized: initialize_outcome(c, line) is Ok, ..c }
    }
}

/// What taking a response line gives: the parsed response, or the reason
/// why there is none.
pub open spec fn response_outcome(c: ClientView, line: Seq<char>) -> Result<
    JsonValue,
    Seq<char>,
> {
    if !c.awaiting || !c.initialized || c.closed {
        Err(unexpected_response())
    } else {
        match parsed_json(line) {
            Err(e) => Err(parse_failure(e, line)),
            Ok(response) => Ok(response),
        }
    }
}

/// The client after a response line has been taken: no longer waiting, if it
/// was.
pub open spec fn after_response(c: ClientView, line: Seq<char>) -> ClientView {
    if !c.awaiting || !c.initialized || c.closed {
        c
    } else {
        ClientView { awaiting: false, ..c }
    }
}

/// A line or a refusal as plain text.
pub open spec fn line_result(r: Result<String, String>) -> Result<Seq<char>, Seq<char>> {
    match r {
        Ok(x) => Ok(x@),
        Err(e) => Err(e@),
    }
}

/// A response or a refusal as plain values.
pub open spec fn json_result(r: Result<Json, String>) -> Result<JsonValue, Seq<char>> {
    match r {
        Ok(x) => Ok(x@),
        Err(e) => Err(e@),
    }
}

/// What a tool call leads to: the request line to write, or the refusal.
pub open spec fn call_outcome(c: ClientView, name: Seq<char>, arguments: JsonValue) -> Result<
    Seq<char>,
    Seq<char>,
> {
    if ready(c) {
        Ok(message_line(tool_call(c.next_id, name, arguments)))
    } else {
        Err(refusal(c))
    }
}

/// The client after a tool call: waiting for the response if the call went
/// out, unchanged if it was refused.
pub open spec fn after_call(c: ClientView) -> ClientView {
    if ready(c) {
        after_request(c)
    } else {
        c
    }
}

/// The protocol state of one client of a UCM instance in MCP mode.
///
/// The client never has two requests outstanding: it hands out a request
/// line only when the response to the one before has been taken.
pub struct MCPClient {
    request_id: u64,
    initialized: bool,
    awaiting: bool,
    closed: bool,
}

impl View for MCPClient {
    type V = ClientView;

    closed spec fn view(&self) -> ClientView {
        ClientView {
            next_id: self.request_id,
            initialized: self.initialized,
            awaiting: self.awaiting,
            closed: self.closed,
        }
    }
}

fn failure_line(error: &str, line: &str) -> (r: String)
    ensures
        r@ == parse_failure(error@, line@),
{
    let mut out: Vec<char> = Vec::new();
    append_str(&mut out, "Failed to parse response: ");
    append_str(&mut out, error);
    append_str(&mut out, " (raw: ");
    append_str(&mut out, line);
    append_str(&mut out, ")");
    assert(out@ =~= parse_failure(error@, line@));
    string_of(&out)
}

impl MCPClient {
    /// A new client together with the `initialize` request, which carries id
    /// 1 and is to be written first.
    pub fn spawn() -> (r: (MCPClient, String))
        ensures
            r.0@ == (ClientView { next_id: 2, initialized: false, awaiting: true, closed: false }),
            r.1@ == message_line(initialize_request(1)),
    {
        let client = MCPClient {
            request_id: 2,
            initialized: false,
            awaiting: true,
            closed: false,
        };
        (client, line_of(&initialize_node(1)))
    }

    fn next_id(&mut self) -> (id: u64)
        ensures
            id == old(self)@.next_id,
            final(self)@ == (ClientView { next_id: id_after(id), ..old(self)@ }),
    {
        let id = self.request_id;
        self.request_id = if id == u64::MAX {
            0
        } else {
            id + 1
        };
        id
    }

    /// Takes the answer to `initialize`. On success the client is
    /// initialized and the result is the `initialized` notification to
    /// write; on any failure the client stays unusable.
    pub fn initialize(&mut self, response_line: &str) -> (r: Result<String, String>)
        ensures
            line_result(r) == initialize_outcome(old(self)@, response_line@),
            final(self)@ == after_initialize(old(self)@, response_line@),
    {
        if !self.awaiting || self.initialized || self.closed {
            return Err("MCP client is not waiting for a response".to_owned());
        }
        self.awaiting = false;
        match parse_value(response_line) {
            Err(e) => Err(failure_line(e.as_str(), response_line)),
            Ok(response) => match value_member(&response, "error") {
                Some(err) => {
                    let message = match value_member(err, "message") {
                        Some(m) => value_text(m),
                        None => value_text(&value_null()),
                    };
                    let mut out: Vec<char> = Vec::new();
                    append_str(&mut out, "MCP initialization failed: ");
                    append_str(&mut out, message.as_str());
                    assert(out@ =~= initialization_failure(value_tree(*err)));
                    Err(string_of(&out))
                },
                None => {
                    self.initialized = true;
                    Ok(line_of(&notification_node()))
                },
            },
        }
    }

    /// Takes the response line to the outstanding tool call and parses it.
    pub fn take_response(&mut self, response_line: &str) -> (r: Result<Json, String>)
        ensures
            json_result(r) == response_outcome(old(self)@, response_line@),
            final(self)@ == after_response(old(self)@, response_line@),
    {
        if !self.awaiting || !self.initialized || self.closed {
            return Err("MCP client is not waiting for a response".to_owned());
        }
        self.awaiting = false;
        match parse_json(response_line) {
            Err(e) => Err(failure_line(e.as_str(), response_line)),
            Ok(response) => Ok(response),
        }
    }

    /// The request line that calls a tool, with the next id. A client whose
    /// handshake has not succeeded refuses, whatever else holds of it; so
    /// does one that is closed, and one that still waits for a response.
    pub fn call_tool(&mut self, tool_name: &str, arguments: serde_json::Value) -> (r: Result<
        String,
        String,
    >)
        ensures
            line_result(r) == call_outcome(old(self)@, tool_name@, value_tree(arguments)),
            final(self)@ == after_call(old(self)@),
    {
        if !self.initialized {
            return Err("MCP client not initialized".to_owned());
        }
        if self.closed {
            return Err("MCP client is closed".to_owned());
        }
        if self.awaiting {
            return Err("MCP request already in progress".to_owned());
        }
        let id = self.next_id();
        self.awaiting = true;
        Ok(line_of(&tool_call_node(id, tool_name, arguments)))
    }

    /// The request line that updates definitions in the codebase.
    pub fn update_definitions(&mut self, code: &str, project_name: &str, branch_name: &str) -> (r:
        Result<String, String>)
        ensures
            line_result(r) == call_outcome(
                old(self)@,
                "update-definitions"@,
                update_arguments(code@, project_name@, branch_name@),
            ),
            final(self)@ == after_call(old(self)@),
    {
        self.call_tool(
            "update-definitions",
            update_definitions_arguments(code, project_name, branch_name),
        )
    }

    /// The request line that typechecks code and evaluates its watch
    /// expressions.
    pub fn typecheck_code(&mut self, code: &str, project_name: &str, branch_name: &str) -> (r:
        Result<String, String>)
        ensures
            line_result(r) == call_outcome(
                old(self)@,
                "typecheck-code"@,
                typecheck_arguments(code@, project_name@, branch_name@),
            ),
            final(self)@ == after_call(old(self)@),
    {
        self.call_tool("typecheck-code", typecheck_code_arguments(code, project_name, branch_name))
    }

    /// The request line that runs the tests of the codebase, in a namespace
    /// where one is given.
    pub fn run_tests(
        &mut self,
        project_name: &str,
        branch_name: &str,
        subnamespace: Option<&str>,
    ) -> (r: Result<String, String>)
        ensures
            line_result(r) == call_outcome(
                old(self)@,
                "run-tests"@,
                run_tests_arguments(project_name@, branch_name@, str_option(subnamespace)),
            ),
            final(self)@ == after_call(old(self)@),
    {
        self.call_tool(
            "run-tests",
            run_tests_call_arguments(project_name, branch_name, subnamespace),
        )
    }

    /// The request line that runs a function of the codebase.
    pub fn run_function(
        &mut self,
        function_name: &str,
        project_name: &str,
        branch_name: &str,
        args: Vec<String>,
    ) -> (r: Result<String, String>)
        ensures
            line_result(r) == call_outcome(
                old(self)@,
                "run"@,
                run_arguments(function_name@, project_name@, branch_name@, args.deep_view()),
            ),
            final(self)@ == after_call(old(self)@),
    {
        self.call_tool(
            "run",
            run_function_arguments(function_name, project_name, branch_name, &args),
        )
    }

    /// Gives up the answer to the outstanding tool call, whose request
    /// could not be written or whose answer could not be read: the next call
    /// may go out. An unanswered handshake is not given up.
    pub fn abandon_request(&mut self)
        ensures
            final(self)@ == (ClientView {
                awaiting: old(self)@.awaiting && !old(self)@.initialized,
                ..old(self)@
            }),
    {
        if self.initialized {
            self.awaiting = false;
        }
    }

    /// Closes the client. The result says whether the process is to be
    /// terminated now: it is `true` the first time and never again.
    pub fn close(&mut self) -> (terminate: bool)
        ensures
            terminate == !old(self)@.closed,
            final(self)@ == (ClientView { closed: true, ..old(self)@ }),
    {
        let first = !self.closed;
        self.closed = true;
        first
    }

    /// Whether the opening handshake has succeeded.
    pub fn is_initialized(&self) -> (r: bool)
        ensures
            r == self@.initialized,
    {
        self.initialized
    }
}

/// As long as the counter has not run through its range, each request
/// carries an id one above that of the request before it.
pub proof fn lemma_ids_increase(c: ClientView)
    requires
        c.next_id < u64::MAX,
    ensures
        after_request(c).next_id == c.next_id + 1,
        after_request(c).next_id > c.next_id,
{
}

/// A tool call that goes out leaves the client waiting, and while it waits
/// no other call is handed out and the state stays as it is, until the
/// response has been taken.
pub proof fn lemma_one_request_at_a_time(
    c: ClientView,
    name: Seq<char>,
    arguments: JsonValue,
    line: Seq<char>,
)
    ensures
        ready(c) ==> after_call(c).awaiting,
        c.awaiting ==> call_outcome(c, name, arguments) is Err && after_call(c) == c,
        ready(c) ==> ready(after_response(after_call(c), line)),
{
}

} // verus!
