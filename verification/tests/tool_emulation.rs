use larql_backend::message::{Message, MessageContent, Role, ToolCall, ToolRequest};
use larql_backend::tool_emulation::{
    build_larql_emulator_tool_description, message_for_action, message_with_id,
    tool_call_from_document, EmulatedAction, EmulatorConvention, LarqlEmulatorParser, SHELL_TOOL,
};
use rmcp::model::CallToolRequestParams;
use serde_json::Value;

fn object(members: Vec<(&str, Value)>) -> serde_json::Map<String, Value> {
    let mut map = serde_json::Map::new();
    for (key, value) in members {
        map.insert(key.to_string(), value);
    }
    map
}

fn string(text: &str) -> Value {
    Value::String(text.to_string())
}

fn fenced(lines: &[&str]) -> Vec<Option<EmulatedAction>> {
    let mut p = LarqlEmulatorParser::new(EmulatorConvention::FencedJson);
    lines.iter().map(|line| p.push_line(line)).collect()
}

#[test]
fn shell_command_line_is_detected() {
    let mut p = LarqlEmulatorParser::new(EmulatorConvention::ShellCommand);
    let action = p.push_line("$ ls -1 /tmp | wc -l");
    assert_eq!(
        action,
        Some(EmulatedAction::ShellCommand("ls -1 /tmp | wc -l".to_string()))
    );
}

#[test]
fn ordinary_text_line_is_not_a_command() {
    let mut p = LarqlEmulatorParser::new(EmulatorConvention::ShellCommand);
    let action = p.push_line("Let me check that for you.");
    assert_eq!(
        action,
        Some(EmulatedAction::Text("Let me check that for you.".to_string()))
    );
}

#[test]
fn empty_command_is_ignored() {
    let mut p = LarqlEmulatorParser::new(EmulatorConvention::ShellCommand);
    assert_eq!(p.push_line("$"), None);
    assert_eq!(p.push_line("$  "), None);
}

#[test]
fn mid_sentence_dollar_is_not_a_command() {
    let mut p = LarqlEmulatorParser::new(EmulatorConvention::ShellCommand);
    let action = p.push_line("It costs $50 per month");
    assert_eq!(
        action,
        Some(EmulatedAction::Text("It costs $50 per month".to_string()))
    );
}

#[test]
fn fenced_json_tool_call_completes_on_closing_fence() {
    let mut p = LarqlEmulatorParser::new(EmulatorConvention::FencedJson);
    assert_eq!(p.push_line("```tool_call"), None);
    assert_eq!(
        p.push_line(r#"{"name": "developer__shell", "arguments": {"command": "ls"}}"#),
        None
    );
    let action = p.push_line("```");
    assert_eq!(
        action,
        Some(EmulatedAction::ToolCallJson {
            name: "developer__shell".to_string(),
            arguments: Value::Object(object(vec![("command", string("ls"))])),
        })
    );
}

#[test]
fn fenced_json_lines_before_open_fence_are_plain_text() {
    let mut p = LarqlEmulatorParser::new(EmulatorConvention::FencedJson);
    let action = p.push_line("Here's the tool call:");
    assert_eq!(
        action,
        Some(EmulatedAction::Text("Here's the tool call:".to_string()))
    );
}

#[test]
fn fenced_json_malformed_body_yields_no_action() {
    let mut p = LarqlEmulatorParser::new(EmulatorConvention::FencedJson);
    assert_eq!(p.push_line("```tool_call"), None);
    assert_eq!(p.push_line("not json"), None);
    assert_eq!(p.push_line("```"), None);
}

#[test]
fn message_for_shell_command_produces_tool_request() {
    let action = EmulatedAction::ShellCommand("whoami".to_string());
    let message = message_for_action(&action);
    assert!(matches!(
        message.content.first(),
        Some(MessageContent::ToolRequest(_))
    ));
}

#[test]
fn shell_lines_do_not_depend_on_each_other() {
    let mut p = LarqlEmulatorParser::new(EmulatorConvention::ShellCommand);
    for _ in 0..2 {
        assert_eq!(p.push_line("```tool_call"), Some(EmulatedAction::Text("```tool_call".to_string())));
        assert_eq!(p.push_line("$pwd\t"), Some(EmulatedAction::ShellCommand("pwd".to_string())));
        assert_eq!(p.push_line(" $ pwd"), Some(EmulatedAction::Text(" $ pwd".to_string())));
        assert_eq!(p.push_line(""), Some(EmulatedAction::Text(String::new())));
    }
}

#[test]
fn padded_commands_read_back_as_themselves() {
    let p = LarqlEmulatorParser::new(EmulatorConvention::ShellCommand);
    let q = LarqlEmulatorParser::new(EmulatorConvention::FencedJson);
    for before in ["", " ", "\t\u{3000}"] {
        for after in ["", "  ", "\r"] {
            let line = format!("${before}echo  $HOME{after}");
            let command = Some(EmulatedAction::ShellCommand("echo  $HOME".to_string()));
            assert_eq!(p.push_line_shell(&line), command);
            assert_eq!(q.push_line_shell(&line), command);
        }
    }
}

#[test]
fn fence_markers_may_be_indented() {
    let actions = fenced(&["  ```tool_call ", r#"{"name": "a"}"#, "\t```  ", "after"]);
    assert_eq!(actions[0], None);
    assert_eq!(actions[1], None);
    assert_eq!(
        actions[2],
        Some(EmulatedAction::ToolCallJson {
            name: "a".to_string(),
            arguments: Value::Object(serde_json::Map::new()),
        })
    );
    assert_eq!(actions[3], Some(EmulatedAction::Text("after".to_string())));
}

#[test]
fn fenced_body_may_span_lines() {
    let actions = fenced(&["```tool_call", "{\"name\":", "\"b\", \"arguments\":", "7}", "```"]);
    assert_eq!(
        actions[4],
        Some(EmulatedAction::ToolCallJson { name: "b".to_string(), arguments: Value::from(7) })
    );
}

#[test]
fn the_parser_is_outside_again_after_a_malformed_block() {
    let actions = fenced(&[
        "```tool_call", "nonsense", "```", "text", "```tool_call", r#"{"name": "c"}"#, "```",
    ]);
    assert_eq!(actions[2], None);
    assert_eq!(actions[3], Some(EmulatedAction::Text("text".to_string())));
    assert_eq!(
        actions[6],
        Some(EmulatedAction::ToolCallJson {
            name: "c".to_string(),
            arguments: Value::Object(serde_json::Map::new()),
        })
    );
}

#[test]
fn a_closed_block_leaves_nothing_behind() {
    let lines = ["text", "```tool_call", r#"{"name": "h"}"#, "```", "```"];
    for body in ["{\"name\":", r#"{"name": "z"}"#] {
        let mut used = LarqlEmulatorParser::new(EmulatorConvention::FencedJson);
        used.push_line_fenced("```tool_call");
        used.push_line_fenced(body);
        used.push_line_fenced("```");
        let answers: Vec<Option<EmulatedAction>> =
            lines.iter().map(|line| used.push_line_fenced(line)).collect();
        assert_eq!(answers, fenced(&lines));
    }
}

#[test]
fn a_closing_fence_outside_a_block_is_text() {
    assert_eq!(fenced(&["```"]), vec![Some(EmulatedAction::Text("```".to_string()))]);
}

#[test]
fn documents_without_a_name_are_no_tool_calls() {
    assert_eq!(tool_call_from_document(&Value::Null), None);
    assert_eq!(tool_call_from_document(&Value::Array(vec![string("name")])), None);
    assert_eq!(tool_call_from_document(&Value::Object(serde_json::Map::new())), None);
    assert_eq!(
        tool_call_from_document(&Value::Object(object(vec![("name", Value::from(1))]))),
        None
    );
    assert_eq!(
        tool_call_from_document(&Value::Object(object(vec![
            ("name", string("d")),
            ("arguments", Value::Null),
        ]))),
        Some(EmulatedAction::ToolCallJson { name: "d".to_string(), arguments: Value::Null })
    );
}

#[test]
fn messages_carry_the_action() {
    let text = message_for_action(&EmulatedAction::Text("hello".to_string()));
    assert_eq!(
        text,
        Message {
            role: Role::Assistant,
            content: vec![MessageContent::Text("hello".to_string())],
        }
    );
    let shell = message_with_id(&EmulatedAction::ShellCommand("ls".to_string()), "id".to_string());
    assert_eq!(
        shell.content,
        vec![MessageContent::ToolRequest(ToolRequest {
            id: "id".to_string(),
            tool_call: ToolCall {
                name: SHELL_TOOL.to_string(),
                arguments: object(vec![("command", string("ls"))]),
            },
        })]
    );
    let call = EmulatedAction::ToolCallJson {
        name: "e".to_string(),
        arguments: Value::Object(object(vec![("x", Value::Bool(true))])),
    };
    assert_eq!(
        message_with_id(&call, "id".to_string()).content,
        vec![MessageContent::ToolRequest(ToolRequest {
            id: "id".to_string(),
            tool_call: ToolCall {
                name: "e".to_string(),
                arguments: object(vec![("x", Value::Bool(true))]),
            },
        })]
    );
}

#[test]
fn arguments_that_are_no_object_are_dropped() {
    let call = EmulatedAction::ToolCallJson { name: "f".to_string(), arguments: string("x") };
    match &message_with_id(&call, String::new()).content[0] {
        MessageContent::ToolRequest(request) => {
            assert_eq!(request.tool_call.name, "f");
            assert_eq!(request.tool_call.arguments, serde_json::Map::new());
        }
        MessageContent::Text(_) => panic!("a request was expected"),
    }
}

#[test]
fn request_identifiers_are_fresh_random_uuids() {
    let action = EmulatedAction::ShellCommand("ls".to_string());
    let mut ids: Vec<String> = Vec::new();
    for _ in 0..8 {
        match &message_for_action(&action).content[0] {
            MessageContent::ToolRequest(request) => ids.push(request.id.clone()),
            MessageContent::Text(_) => panic!("a request was expected"),
        }
    }
    for id in &ids {
        let parsed = uuid::Uuid::parse_str(id).unwrap();
        assert_eq!(parsed.get_version_num(), 4);
        assert_eq!(&parsed.to_string(), id);
    }
    assert_ne!(ids[0], ids[1]);
}

#[test]
fn request_parameters_hold_name_and_arguments() {
    let call = ToolCall { name: "g".to_string(), arguments: object(vec![("y", Value::from(2))]) };
    let params: CallToolRequestParams = call.request_params();
    assert_eq!(params.name, "g");
    assert_eq!(params.arguments, Some(object(vec![("y", Value::from(2))])));
    assert_eq!(
        params,
        CallToolRequestParams::new("g").with_arguments(object(vec![("y", Value::from(2))]))
    );
}

#[test]
fn tool_description_lists_the_tools() {
    assert_eq!(
        build_larql_emulator_tool_description(None),
        "\n\n# Tools\n\nYou have access to the following tools:\n\n"
    );
    assert_eq!(
        build_larql_emulator_tool_description(Some("[]")),
        "\n\n# Tools\n\nYou have access to the following tools:\n\n[]\n"
    );
}
