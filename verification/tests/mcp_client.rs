use serde_json::Value;
use unison_editor::json::{parse_json, Json};
use unison_editor::mcp_client::{
    run_function_arguments, run_tests_call_arguments, typecheck_code_arguments,
    update_definitions_arguments,
};
use unison_editor::mcp_client::{
    read_tool_answer, run_function_result, run_tests_result, typecheck_result, update_result,
    MCPClient, ToolAnswer,
};

const INITIALIZE: &str = "{\"id\":1,\"jsonrpc\":\"2.0\",\"method\":\"initialize\",\"params\":{\"capabilities\":{},\"clientInfo\":{\"name\":\"unison-editor\",\"version\":\"0.1.0\"},\"protocolVersion\":\"2024-11-05\"}}\n";

fn ready() -> MCPClient {
    let (mut client, _) = MCPClient::spawn();
    client.initialize("{\"jsonrpc\":\"2.0\",\"id\":1,\"result\":{}}\n").unwrap();
    client
}

fn response(text: &str) -> Json {
    parse_json(text).unwrap()
}

/// A response whose result carries the given text as its one content item.
fn answer(text: &str, is_error: bool) -> Json {
    Json::Object(vec![
        ("jsonrpc".to_string(), Json::Text("2.0".to_string())),
        ("id".to_string(), Json::Number("2".to_string())),
        (
            "result".to_string(),
            Json::Object(vec![
                (
                    "content".to_string(),
                    Json::Array(vec![Json::Object(vec![
                        ("type".to_string(), Json::Text("text".to_string())),
                        ("text".to_string(), Json::Text(text.to_string())),
                    ])]),
                ),
                ("isError".to_string(), Json::Bool(is_error)),
            ]),
        ),
    ])
}

#[test]
fn handshake_opens_the_protocol() {
    let (mut client, line) = MCPClient::spawn();
    assert_eq!(line, INITIALIZE);
    assert!(!client.is_initialized());
    // The line is what serde_json reads as the request.
    let sent = parse_json(&line).unwrap();
    assert_eq!(sent.get_str("method"), Some("initialize"));
    assert!(matches!(sent.get("id"), Some(Json::Number(n)) if n == "1"));
    let notification = client.initialize("{\"jsonrpc\":\"2.0\",\"id\":1,\"result\":{\"capabilities\":{}}}\n");
    assert_eq!(notification, Ok("{\"jsonrpc\":\"2.0\",\"method\":\"notifications/initialized\"}\n".to_string()));
    assert!(client.is_initialized());
}

#[test]
fn failed_handshake_leaves_the_client_unusable() {
    let (mut client, _) = MCPClient::spawn();
    let r = client.initialize("{\"jsonrpc\":\"2.0\",\"id\":1,\"error\":{\"code\":-1,\"message\":\"bad \\\"version\\\"\"}}");
    assert_eq!(r, Err("MCP initialization failed: \"bad \\\"version\\\"\"".to_string()));
    assert!(!client.is_initialized());
    assert_eq!(client.call_tool("run", Value::Null), Err("MCP client not initialized".to_string()));
    // A second answer is not waited for.
    assert_eq!(client.initialize("{\"result\":{}}"), Err("MCP client is not waiting for a response".to_string()));

    let (mut client, _) = MCPClient::spawn();
    assert_eq!(client.initialize("{\"error\":{}}"), Err("MCP initialization failed: null".to_string()));
    let (mut client, _) = MCPClient::spawn();
    assert_eq!(client.initialize("{\"error\":{\"message\":{\"a\":[1]}}}"), Err("MCP initialization failed: {\"a\":[1]}".to_string()));
    let (mut client, _) = MCPClient::spawn();
    assert_eq!(client.initialize("{\"error\":null}"), Err("MCP initialization failed: null".to_string()));
}

#[test]
fn handshake_answer_that_is_not_json_is_refused() {
    let (mut client, _) = MCPClient::spawn();
    let e = client.initialize("garbage\n").unwrap_err();
    assert!(e.starts_with("Failed to parse response: "), "{}", e);
    assert!(e.ends_with(" (raw: garbage\n)"), "{}", e);
    assert!(!client.is_initialized());
    let (mut client, _) = MCPClient::spawn();
    let e = client.initialize("").unwrap_err();
    assert!(e.starts_with("Failed to parse response: ") && e.ends_with(" (raw: )"), "{}", e);
}

#[test]
fn tool_calls_need_the_handshake() {
    let (mut client, _) = MCPClient::spawn();
    assert_eq!(client.call_tool("run", Value::Null), Err("MCP client not initialized".to_string()));
    assert_eq!(client.update_definitions("x = 1", "p", "b"), Err("MCP client not initialized".to_string()));
    assert_eq!(client.take_response("{}").err(), Some("MCP client is not waiting for a response".to_string()));
}

#[test]
fn requests_carry_rising_ids_and_go_one_at_a_time() {
    let mut client = ready();
    let first = client.call_tool("a", Value::Object(serde_json::Map::new())).unwrap();
    assert_eq!(first, "{\"id\":2,\"jsonrpc\":\"2.0\",\"method\":\"tools/call\",\"params\":{\"arguments\":{},\"name\":\"a\"}}\n");
    assert_eq!(client.call_tool("b", Value::Null), Err("MCP request already in progress".to_string()));
    assert!(client.take_response("{\"result\":{}}").is_ok());
    assert_eq!(client.take_response("{\"result\":{}}").err(), Some("MCP client is not waiting for a response".to_string()));
    let second = client.call_tool("b", Value::Null).unwrap();
    assert_eq!(second, "{\"id\":3,\"jsonrpc\":\"2.0\",\"method\":\"tools/call\",\"params\":{\"arguments\":null,\"name\":\"b\"}}\n");
    // A refused call used no id.
    client.take_response("{}").unwrap();
    let third = client.call_tool("c", Value::Null).unwrap();
    assert!(third.starts_with("{\"id\":4,"));
}

#[test]
fn response_that_is_not_json_is_refused_with_the_raw_line() {
    let mut client = ready();
    client.call_tool("a", Value::Null).unwrap();
    let e = client.take_response("oops\n").unwrap_err();
    assert!(e.starts_with("Failed to parse response: "), "{}", e);
    assert!(e.ends_with(" (raw: oops\n)"), "{}", e);
    // The failed response was the answer: the next call may go out.
    assert!(client.call_tool("b", Value::Null).is_ok());
}

#[test]
fn update_request_is_written_with_escaped_code() {
    let mut client = ready();
    let line = client.update_definitions("x = \"hi\"\ny = 2", "@me/proj", "main").unwrap();
    assert_eq!(
        line,
        "{\"id\":2,\"jsonrpc\":\"2.0\",\"method\":\"tools/call\",\"params\":{\"arguments\":{\"code\":{\"text\":\"x = \\\"hi\\\"\\ny = 2\"},\"projectContext\":{\"branchName\":\"main\",\"projectName\":\"@me/proj\"}},\"name\":\"update-definitions\"}}\n"
    );
    assert_eq!(line.matches('\n').count(), 1);
    // What goes over the wire reads back as what was asked.
    let sent = parse_json(&line).unwrap();
    let code = sent.get("params").and_then(|p| p.get("arguments")).and_then(|a| a.get("code")).and_then(|c| c.get_str("text"));
    assert_eq!(code, Some("x = \"hi\"\ny = 2"));
}

#[test]
fn typecheck_request() {
    let mut client = ready();
    let line = client.typecheck_code("> 1 + 1", "p", "b").unwrap();
    assert_eq!(
        line,
        "{\"id\":2,\"jsonrpc\":\"2.0\",\"method\":\"tools/call\",\"params\":{\"arguments\":{\"code\":{\"sourceCode\":\"> 1 + 1\"},\"projectContext\":{\"branchName\":\"b\",\"projectName\":\"p\"}},\"name\":\"typecheck-code\"}}\n"
    );
}

#[test]
fn run_tests_request_names_the_namespace_only_if_given() {
    let mut client = ready();
    let line = client.run_tests("p", "b", None).unwrap();
    assert_eq!(
        line,
        "{\"id\":2,\"jsonrpc\":\"2.0\",\"method\":\"tools/call\",\"params\":{\"arguments\":{\"projectContext\":{\"branchName\":\"b\",\"projectName\":\"p\"}},\"name\":\"run-tests\"}}\n"
    );
    client.take_response("{}").unwrap();
    let line = client.run_tests("p", "b", Some("lib.tests")).unwrap();
    assert_eq!(
        line,
        "{\"id\":3,\"jsonrpc\":\"2.0\",\"method\":\"tools/call\",\"params\":{\"arguments\":{\"projectContext\":{\"branchName\":\"b\",\"projectName\":\"p\"},\"subnamespace\":\"lib.tests\"},\"name\":\"run-tests\"}}\n"
    );
}

#[test]
fn run_request_lists_its_arguments() {
    let mut client = ready();
    let line = client.run_function("main", "p", "b", vec!["a b".to_string(), "".to_string()]).unwrap();
    assert_eq!(
        line,
        "{\"id\":2,\"jsonrpc\":\"2.0\",\"method\":\"tools/call\",\"params\":{\"arguments\":{\"args\":[\"a b\",\"\"],\"mainFunctionName\":\"main\",\"projectContext\":{\"branchName\":\"b\",\"projectName\":\"p\"}},\"name\":\"run\"}}\n"
    );
    client.take_response("{}").unwrap();
    let line = client.run_function("main", "p", "b", Vec::new()).unwrap();
    assert!(line.contains("\"args\":[]"));
}

/// The line as `serde_json` itself writes the value that it reads from it.
fn rewritten(line: &str) -> String {
    let value: Value = serde_json::from_str(line).unwrap();
    let mut text = serde_json::to_string(&value).unwrap();
    text.push('\n');
    text
}

#[test]
fn requests_are_written_as_serde_json_writes_them() {
    let (mut client, initialize) = MCPClient::spawn();
    assert_eq!(rewritten(&initialize), initialize);
    let notification = client.initialize("{\"result\":{}}").unwrap();
    assert_eq!(rewritten(&notification), notification);
    let code = "x = \"q\"\n\ty \\ z \u{0}\u{1f}\u{7f} \u{e9}\u{2028}\u{1f600} </script>";
    let line = client.update_definitions(code, "@me/p\"roj", "feature/x").unwrap();
    assert_eq!(rewritten(&line), line);
    client.take_response("{}").unwrap();
    let line = client.typecheck_code(code, "p", "b").unwrap();
    assert_eq!(rewritten(&line), line);
    client.take_response("{}").unwrap();
    let line = client.run_tests("p", "b", Some("lib.\"x\"")).unwrap();
    assert_eq!(rewritten(&line), line);
    client.take_response("{}").unwrap();
    let line = client.run_function("main", "p", "b", vec![code.to_string(), String::new()]).unwrap();
    assert_eq!(rewritten(&line), line);
}

#[test]
fn close_terminates_exactly_once() {
    let mut client = ready();
    assert!(client.close());
    assert!(!client.close());
    assert!(!client.close());
    assert_eq!(client.call_tool("a", Value::Null), Err("MCP client is closed".to_string()));
    let (mut unopened, _) = MCPClient::spawn();
    assert!(unopened.close());
    // The handshake is asked about before anything else.
    assert_eq!(unopened.call_tool("a", Value::Null), Err("MCP client not initialized".to_string()));
    assert!(unopened.initialize("{\"result\":{}}").is_err());
    assert_eq!(unopened.call_tool("a", Value::Null), Err("MCP client not initialized".to_string()));
}

#[test]
fn tool_answer_is_an_error_a_result_or_neither() {
    assert!(matches!(read_tool_answer(&response("{\"error\":{\"message\":\"no\"}}")), ToolAnswer::Failed(m) if m == "no"));
    assert!(matches!(read_tool_answer(&response("{\"error\":{\"message\":5}}")), ToolAnswer::Failed(m) if m == "Unknown error"));
    assert!(matches!(read_tool_answer(&response("{\"error\":\"text\"}")), ToolAnswer::Failed(m) if m == "Unknown error"));
    assert!(matches!(read_tool_answer(&response("{\"error\":null,\"result\":{}}")), ToolAnswer::Failed(m) if m == "Unknown error"));
    assert!(matches!(read_tool_answer(&response("{\"id\":1}")), ToolAnswer::Invalid));
    assert!(matches!(read_tool_answer(&response("[1]")), ToolAnswer::Invalid));
    assert!(matches!(
        read_tool_answer(&response("{\"result\":{}}")),
        ToolAnswer::Output { is_error: false, raw } if raw.is_empty()
    ));
    assert!(matches!(
        read_tool_answer(&response("{\"result\":{\"isError\":\"yes\",\"content\":\"text\"}}")),
        ToolAnswer::Output { is_error: false, raw } if raw.is_empty()
    ));
    assert!(matches!(
        read_tool_answer(&response("{\"result\":{\"isError\":true,\"content\":[{\"text\":\"a\"},{\"type\":\"image\"},{\"text\":7},\"s\",{\"text\":\"b\"}]}}")),
        ToolAnswer::Output { is_error: true, raw } if raw == "a\nb"
    ));
}

#[test]
fn update_outcomes() {
    let failed = update_result(&response("{\"error\":{\"message\":\"no such tool\"}}")).unwrap();
    assert!(!failed.success);
    assert_eq!(failed.output, "");
    assert_eq!(failed.errors, vec!["no such tool".to_string()]);

    assert_eq!(update_result(&response("{}")).err(), Some("Invalid MCP response: missing result".to_string()));

    let saved = update_result(&answer("{\"outputMessages\":[\"Loading changes detected in scratch\",\"Done.\",\"\"]}", false)).unwrap();
    assert!(saved.success);
    assert_eq!(saved.output, "Saved to codebase");
    assert!(saved.errors.is_empty());

    let told = update_result(&answer("{\"outputMessages\":[\"added x\",\"Done.\",\"updated y\"],\"sourceCodeUpdates\":[1,2]}", false)).unwrap();
    assert!(told.success);
    assert_eq!(told.output, "added x. updated y. Updated 2 definitions");

    let one = update_result(&answer("{\"sourceCodeUpdates\":[{}]}", false)).unwrap();
    assert_eq!(one.output, "Updated 1 definition");

    let broken = update_result(&answer("{\"errorMessages\":[\"\",\"type error\",\"unbound name\"],\"outputMessages\":[\"x\"]}", false)).unwrap();
    assert!(!broken.success);
    assert_eq!(broken.output, "type error\nunbound name");
    assert_eq!(broken.errors, vec!["type error".to_string(), "unbound name".to_string()]);

    let flagged = update_result(&answer("{}", true)).unwrap();
    assert!(!flagged.success);
    assert_eq!(flagged.output, "Update failed");
    assert_eq!(flagged.errors, vec!["Update failed".to_string()]);

    // Flagged as an error, but with messages and no error text.
    let odd = update_result(&answer("{\"outputMessages\":[\"hm\"]}", true)).unwrap();
    assert!(!odd.success);
    assert_eq!(odd.output, "hm");
    assert!(odd.errors.is_empty());

    let plain = update_result(&answer("I could not parse that", true)).unwrap();
    assert!(!plain.success);
    assert_eq!(plain.output, "I could not parse that");
    assert_eq!(plain.errors, vec!["I could not parse that".to_string()]);

    let fine = update_result(&answer("All good", false)).unwrap();
    assert!(fine.success);
    assert_eq!(fine.output, "All good");
    assert!(fine.errors.is_empty());
}

#[test]
fn run_function_outcomes() {
    let r = run_function_result(&answer("{\"stdout\":\"hello\\n\",\"stderr\":\"warn\",\"outputMessages\":[\"ran\"]}", false)).unwrap();
    assert!(r.success);
    assert_eq!((r.stdout.as_str(), r.stderr.as_str(), r.output.as_str()), ("hello\n", "warn", "hello\n"));
    assert!(r.errors.is_empty());

    let r = run_function_result(&answer("{\"stdout\":\"\",\"outputMessages\":[\"Loading...\",\"ran\",\"Done.\",\"\",\"twice\"]}", false)).unwrap();
    assert_eq!((r.stdout.as_str(), r.stderr.as_str(), r.output.as_str()), ("", "", "ran\ntwice"));

    let r = run_function_result(&answer("{}", false)).unwrap();
    assert_eq!(r.output, "Function executed successfully");
    assert!(r.success);

    let r = run_function_result(&answer("{\"stdout\":\"partial\",\"errorMessages\":[\"boom\"]}", false)).unwrap();
    assert!(!r.success);
    assert_eq!(r.output, "partial");
    assert_eq!(r.errors, vec!["boom".to_string()]);

    let r = run_function_result(&answer("crashed", true)).unwrap();
    assert!(!r.success);
    assert_eq!((r.stdout.as_str(), r.stderr.as_str(), r.output.as_str()), ("", "crashed", "crashed"));
    assert_eq!(r.errors, vec!["crashed".to_string()]);

    let r = run_function_result(&answer("printed", false)).unwrap();
    assert!(r.success);
    assert_eq!((r.stdout.as_str(), r.stderr.as_str(), r.output.as_str()), ("printed", "", "printed"));

    let r = run_function_result(&response("{\"error\":{}}")).unwrap();
    assert!(!r.success);
    assert_eq!(r.errors, vec!["Unknown error".to_string()]);
    assert_eq!(run_function_result(&response("{}")).err(), Some("Invalid MCP response: missing result".to_string()));
}

#[test]
fn run_tests_outcomes() {
    let r = run_tests_result(&answer("{\"outputMessages\":[\"Loading tests\",\"1. lib.ok \u{2713} passing\",\"2. lib.bad \u{2717} failing\",\"note\"]}", false)).unwrap();
    assert!(r.success);
    assert_eq!(r.test_results.len(), 2);
    assert_eq!((r.test_results[0].name.as_str(), r.test_results[0].passed, r.test_results[0].message.as_str()), ("lib.ok", true, "Passed"));
    assert_eq!((r.test_results[1].name.as_str(), r.test_results[1].passed, r.test_results[1].message.as_str()), ("lib.bad", false, "Failed"));
    assert_eq!(r.output, "\u{2705} lib.ok - Passed\n\u{1f6ab} lib.bad - FAILED\nFailed");

    let r = run_tests_result(&answer("{\"outputMessages\":[\"nothing to see\",\"Done.\"]}", false)).unwrap();
    assert_eq!(r.output, "nothing to see");
    assert!(r.test_results.is_empty());

    let r = run_tests_result(&answer("{}", false)).unwrap();
    assert_eq!(r.output, "No tests found");
    assert!(r.success);

    let r = run_tests_result(&answer("{\"errorMessages\":[\"no such namespace\"],\"outputMessages\":[\"1. a \u{2713}\"]}", false)).unwrap();
    assert!(!r.success);
    assert_eq!(r.output, "no such namespace");
    assert_eq!(r.test_results.len(), 1);

    let r = run_tests_result(&answer("  1. first \u{2713} passing\n\n 2. second \u{2717} failing\nsummary", false)).unwrap();
    assert!(r.success);
    assert_eq!(r.output, "\u{2705} first - Passed\n\u{1f6ab} second - FAILED");
    assert_eq!(r.test_results.len(), 2);

    let r = run_tests_result(&answer("could not run", true)).unwrap();
    assert!(!r.success);
    assert_eq!(r.output, "could not run");
    assert_eq!(r.errors, vec!["could not run".to_string()]);

    let r = run_tests_result(&response("{\"error\":{\"message\":\"x\"}}")).unwrap();
    assert!(!r.success && r.test_results.is_empty());
    assert_eq!(run_tests_result(&response("{}")).err(), Some("Invalid MCP response: missing result".to_string()));
}

#[test]
fn typecheck_outcomes() {
    let raw = "{\"errorMessages\":[],\"outputMessages\":[\"  1 | > 1 + 2\\n        \u{29e9}\\n        3\",\"  4 | test> square.tests.ex1 = check (square 2 == 4)\",\"\u{2705} Passed Passed (cached)\"]}";
    let r = typecheck_result(&answer(raw, false)).unwrap();
    assert!(r.success);
    assert!(r.errors.is_empty());
    assert_eq!(r.watch_results.len(), 1);
    assert_eq!((r.watch_results[0].expression.as_str(), r.watch_results[0].result.as_str(), r.watch_results[0].line_number), ("1 + 2", "3", 1));
    assert_eq!(r.test_results.len(), 1);
    assert_eq!((r.test_results[0].name.as_str(), r.test_results[0].passed, r.test_results[0].message.as_str()), ("square.tests.ex1", true, "Passed"));
    assert_eq!(r.output, "\u{2705} square.tests.ex1");

    let r = typecheck_result(&answer("{\"outputMessages\":[\"  2 | > x\",\"\u{29e9}\",\"  42  \"]}", false)).unwrap();
    assert_eq!(r.output, "> x\n\u{21d2} 42");

    let r = typecheck_result(&answer("{\"outputMessages\":[\"ok\"]}", false)).unwrap();
    assert_eq!(r.output, "Code typechecks successfully");
    assert!(r.success);

    let r = typecheck_result(&answer("{\"errorMessages\":[\"mismatch\"],\"outputMessages\":[\"  2 | > x\",\"7\"]}", false)).unwrap();
    assert!(!r.success);
    assert_eq!(r.output, "mismatch");
    assert_eq!(r.errors, vec!["mismatch".to_string()]);
    assert_eq!(r.watch_results.len(), 1);

    let r = typecheck_result(&answer("not json", true)).unwrap();
    assert!(!r.success);
    assert_eq!(r.errors, vec!["not json".to_string()]);
    assert_eq!(r.output, "not json");
    let r = typecheck_result(&answer("not json", false)).unwrap();
    assert!(r.success && r.errors.is_empty());

    let r = typecheck_result(&response("{\"error\":{\"message\":\"down\"}}")).unwrap();
    assert!(!r.success);
    assert_eq!(r.errors, vec!["down".to_string()]);
    assert_eq!(r.output, "");
    assert_eq!(typecheck_result(&response("{}")).err(), Some("Invalid MCP response: missing result".to_string()));
}

#[test]
fn arguments_of_any_shape_are_written_by_rising_key() {
    let mut client = ready();
    let arguments: Value = serde_json::from_str("{\"b\":[1,true,null],\"a\":{\"x\":1.5}}").unwrap();
    let line = client.call_tool("t", arguments).unwrap();
    assert_eq!(
        line,
        "{\"id\":2,\"jsonrpc\":\"2.0\",\"method\":\"tools/call\",\"params\":{\"arguments\":{\"a\":{\"x\":1.5},\"b\":[1,true,null]},\"name\":\"t\"}}\n"
    );
}

#[test]
fn argument_builders_give_the_values_that_are_sent() {
    assert_eq!(
        update_definitions_arguments("x = 1", "p", "b").to_string(),
        "{\"code\":{\"text\":\"x = 1\"},\"projectContext\":{\"branchName\":\"b\",\"projectName\":\"p\"}}"
    );
    assert_eq!(
        typecheck_code_arguments("> 1", "p", "b").to_string(),
        "{\"code\":{\"sourceCode\":\"> 1\"},\"projectContext\":{\"branchName\":\"b\",\"projectName\":\"p\"}}"
    );
    assert_eq!(
        run_tests_call_arguments("p", "b", Some("ns")).to_string(),
        "{\"projectContext\":{\"branchName\":\"b\",\"projectName\":\"p\"},\"subnamespace\":\"ns\"}"
    );
    assert_eq!(
        run_tests_call_arguments("p", "b", None).to_string(),
        "{\"projectContext\":{\"branchName\":\"b\",\"projectName\":\"p\"}}"
    );
    let args = vec!["1".to_string(), "two".to_string()];
    assert_eq!(
        run_function_arguments("main", "p", "b", &args).to_string(),
        "{\"args\":[\"1\",\"two\"],\"mainFunctionName\":\"main\",\"projectContext\":{\"branchName\":\"b\",\"projectName\":\"p\"}}"
    );
}

#[test]
fn ids_are_written_in_decimal_up_to_the_largest() {
    let mut client = ready();
    let mut last = String::new();
    for _ in 0..11 {
        last = client.call_tool("a", Value::Null).unwrap();
        client.take_response("{}").unwrap();
    }
    assert!(last.starts_with("{\"id\":12,"), "{}", last);
}

#[test]
fn request_that_was_given_up_lets_the_next_one_out() {
    let mut client = ready();
    client.call_tool("a", Value::Null).unwrap();
    assert_eq!(client.call_tool("b", Value::Null), Err("MCP request already in progress".to_string()));
    client.abandon_request();
    let next = client.call_tool("b", Value::Null).unwrap();
    assert!(next.starts_with("{\"id\":3,"), "{}", next);
    // Nothing is given up of a handshake that was not answered.
    let (mut opening, _) = MCPClient::spawn();
    opening.abandon_request();
    assert!(opening.initialize("{\"result\":{}}").is_ok());
}
