use agent_office::log_parser::{
    determine_agent_status, determine_agent_type, determine_entry_type, parse_debug_line,
    parse_session_line, parse_trimmed_line, record_kind_of, JsonField, SessionRecord,
};
use agent_office::models::{AgentStatus, AgentType, LogEntry, LogEntryType};

fn entry(kind: LogEntryType, tool: Option<&str>, content: &str) -> LogEntry {
    LogEntry {
        timestamp: String::new(),
        entry_type: kind,
        content: content.to_string(),
        agent_id: None,
        tool_name: tool.map(|t| t.to_string()),
    }
}

#[test]
fn test_parse_tool_call() {
    let line = "Tool call: Read";
    let entry = parse_debug_line(line).unwrap();
    assert_eq!(entry.entry_type, LogEntryType::ToolCall);
    assert_eq!(entry.tool_name, Some("Read".to_string()));
}

#[test]
fn test_determine_agent_type_analyzer() {
    let entry = LogEntry {
        timestamp: String::new(),
        entry_type: LogEntryType::ToolCall,
        content: String::new(),
        agent_id: None,
        tool_name: Some("Grep".to_string()),
    };
    assert_eq!(determine_agent_type(&entry), AgentType::Analyzer);
}

#[test]
fn test_determine_agent_type_explorer() {
    let entry = LogEntry {
        timestamp: String::new(),
        entry_type: LogEntryType::ToolCall,
        content: String::new(),
        agent_id: None,
        tool_name: Some("Read".to_string()),
    };
    assert_eq!(determine_agent_type(&entry), AgentType::Explorer);
}

#[test]
fn test_determine_agent_type_connector() {
    let entry = LogEntry {
        timestamp: String::new(),
        entry_type: LogEntryType::ToolCall,
        content: String::new(),
        agent_id: None,
        tool_name: Some("mcp__chrome-devtools__click".to_string()),
    };
    assert_eq!(determine_agent_type(&entry), AgentType::Connector);
}

#[test]
fn timestamped_tool_call_line() {
    let e = parse_debug_line("2024-01-01 10:00:00 Tool call: Read").unwrap();
    assert_eq!(e.timestamp, "2024-01-01 10:00:00");
    assert_eq!(e.entry_type, LogEntryType::ToolCall);
    assert_eq!(e.tool_name, Some("Read".to_string()));
    assert_eq!(e.content, "Tool call: Read");
    assert_eq!(determine_agent_status(&e), AgentStatus::Working);
    assert_eq!(determine_agent_type(&e), AgentType::Explorer);
}

#[test]
fn iso_timestamp_with_t_designator() {
    let e = parse_debug_line("2024-01-01T10:00:00Z   hello there").unwrap();
    assert_eq!(e.timestamp, "2024-01-01T10:00:00");
    assert_eq!(e.content, "hello there");
    assert_eq!(e.entry_type, LogEntryType::Message);
}

#[test]
fn bare_timestamp_line_has_empty_content() {
    let e = parse_debug_line("2024-01-01 10:00:00").unwrap();
    assert_eq!(e.timestamp, "2024-01-01 10:00:00");
    assert_eq!(e.content, "");
}

#[test]
fn line_without_timestamp_keeps_whole_text() {
    let e = parse_debug_line("  just thinking about it  ").unwrap();
    assert_eq!(e.timestamp, "");
    assert_eq!(e.content, "just thinking about it");
    assert_eq!(e.entry_type, LogEntryType::Message);
    assert_eq!(e.tool_name, None);
    assert_eq!(e.agent_id, None);
}

#[test]
fn blank_lines_give_no_entry() {
    assert!(parse_debug_line("").is_none());
    assert!(parse_debug_line("   \t ").is_none());
    assert!(parse_session_line("  ").is_none());
    assert!(parse_trimmed_line("").is_none());
}

#[test]
fn tool_result_takes_first_word() {
    let e = parse_debug_line("Tool result:   Bash exited 0").unwrap();
    assert_eq!(e.entry_type, LogEntryType::ToolResult);
    assert_eq!(e.tool_name, Some("Bash".to_string()));
}

#[test]
fn tool_call_without_name() {
    let (kind, tool) = determine_entry_type("Tool call:  ");
    assert_eq!(kind, LogEntryType::ToolCall);
    assert_eq!(tool, None);
}

#[test]
fn error_markers_ignore_case() {
    for text in ["[ERROR] disk full", "[error] x", "Error: nope", "error: nope", "FATAL ERROR: x"] {
        let e = parse_debug_line(text).unwrap();
        assert_eq!(e.entry_type, LogEntryType::Error, "{text}");
        assert_eq!(e.tool_name, None);
    }
}

#[test]
fn todo_markers() {
    for text in ["TodoWrite called", "Task: plan", "a todo item", "TODO list"] {
        let e = parse_debug_line(text).unwrap();
        assert_eq!(e.entry_type, LogEntryType::TodoUpdate, "{text}");
        assert_eq!(e.tool_name, Some("TodoWrite".to_string()));
    }
}

#[test]
fn known_tool_in_text_first_match_wins() {
    let e = parse_debug_line("then Grep and Read were used").unwrap();
    assert_eq!(e.entry_type, LogEntryType::ToolCall);
    assert_eq!(e.tool_name, Some("Read".to_string()));
    let e = parse_debug_line("running WebSearch now").unwrap();
    assert_eq!(e.tool_name, Some("WebSearch".to_string()));
}

#[test]
fn error_takes_priority_over_tool_names() {
    let e = parse_debug_line("Read failed, error: missing").unwrap();
    assert_eq!(e.entry_type, LogEntryType::Error);
}

#[test]
fn structured_error_line() {
    let e = parse_session_line(r#"{"type":"error","message":"boom"}"#).unwrap();
    assert_eq!(e.entry_type, LogEntryType::Error);
    assert_eq!(e.content, "boom");
    assert_eq!(e.tool_name, None);
    assert_eq!(determine_agent_status(&e), AgentStatus::Error);
    assert_eq!(determine_agent_type(&e), AgentType::Liaison);
}

#[test]
fn structured_tool_use_line() {
    let line = r#" {"type":"tool_use","name":"Edit","content":"x","timestamp":"t1","agent_id":"a7"} "#;
    let e = parse_session_line(line).unwrap();
    assert_eq!(e.entry_type, LogEntryType::ToolCall);
    assert_eq!(e.tool_name, Some("Edit".to_string()));
    assert_eq!(e.content, "x");
    assert_eq!(e.timestamp, "t1");
    assert_eq!(e.agent_id, Some("a7".to_string()));
}

#[test]
fn structured_fallbacks_and_defaults() {
    let e = parse_session_line(r#"{"type":"tool_result","tool":"Grep"}"#).unwrap();
    assert_eq!(e.entry_type, LogEntryType::ToolResult);
    assert_eq!(e.tool_name, Some("Grep".to_string()));
    assert_eq!(e.content, "");
    assert_eq!(e.timestamp, "");
    let e = parse_session_line(r#"{"type":"something","content":"hi","message":"no"}"#).unwrap();
    assert_eq!(e.entry_type, LogEntryType::Message);
    assert_eq!(e.content, "hi");
    let e = parse_session_line("[1, 2]").unwrap();
    assert_eq!(e.entry_type, LogEntryType::Message);
    assert_eq!(e.content, "");
}

#[test]
fn malformed_structured_line_falls_back_to_text() {
    let e = parse_session_line(r#"{"type": "message", "content": "#).unwrap();
    assert_eq!(e.entry_type, LogEntryType::Message);
    assert_eq!(e.content, r#"{"type": "message", "content":"#);
    let e = parse_session_line("Tool call: Bash ls").unwrap();
    assert_eq!(e.entry_type, LogEntryType::ToolCall);
    assert_eq!(e.tool_name, Some("Bash".to_string()));
}

#[test]
fn session_record_into_entry() {
    let r = SessionRecord {
        kind: JsonField::Text("tool_use".to_string()),
        name: JsonField::Absent,
        tool: JsonField::Text("Write".to_string()),
        content: JsonField::Absent,
        message: JsonField::Text("m".to_string()),
        timestamp: JsonField::Other,
        agent_id: JsonField::Absent,
    };
    let e = r.into_entry();
    assert_eq!(e.entry_type, LogEntryType::ToolCall);
    assert_eq!(e.tool_name, Some("Write".to_string()));
    assert_eq!(e.content, "m");
    assert_eq!(e.timestamp, "");
    let r = SessionRecord {
        kind: JsonField::Other,
        name: JsonField::Other,
        tool: JsonField::Text("Read".to_string()),
        content: JsonField::Other,
        message: JsonField::Text("m".to_string()),
        timestamp: JsonField::Absent,
        agent_id: JsonField::Text("a1".to_string()),
    };
    let e = r.into_entry();
    assert_eq!(e.entry_type, LogEntryType::Message);
    assert_eq!(e.tool_name, None);
    assert_eq!(e.content, "");
    assert_eq!(e.agent_id, Some("a1".to_string()));
    assert_eq!(record_kind_of(&None), LogEntryType::Message);
    assert_eq!(record_kind_of(&Some("tool_result".to_string())), LogEntryType::ToolResult);
}

#[test]
fn routing_table() {
    let cases = [
        ("read", AgentType::Explorer),
        ("Glob", AgentType::Explorer),
        ("GREP", AgentType::Analyzer),
        ("WebSearch", AgentType::Analyzer),
        ("TodoWrite", AgentType::Architect),
        ("Task", AgentType::Architect),
        ("Write", AgentType::Developer),
        ("Edit", AgentType::Developer),
        ("NotebookEdit", AgentType::Developer),
        ("WebFetch", AgentType::Connector),
        ("Skill", AgentType::Connector),
        ("MCP__x__y", AgentType::Connector),
        ("AskUserQuestion", AgentType::Liaison),
        ("SomethingElse", AgentType::Developer),
    ];
    for (tool, expected) in cases {
        let e = entry(LogEntryType::ToolCall, Some(tool), "");
        assert_eq!(determine_agent_type(&e), expected, "{tool}");
    }
}

#[test]
fn shell_commands_split_by_content() {
    for content in ["git status", "npm TEST", "npx jest", "vitest run", "pytest -q"] {
        let e = entry(LogEntryType::ToolCall, Some("Bash"), content);
        assert_eq!(determine_agent_type(&e), AgentType::Validator, "{content}");
    }
    let e = entry(LogEntryType::ToolCall, Some("bash"), "ls -la");
    assert_eq!(determine_agent_type(&e), AgentType::Operator);
}

#[test]
fn entries_without_tool() {
    assert_eq!(determine_agent_type(&entry(LogEntryType::Error, None, "x")), AgentType::Liaison);
    assert_eq!(determine_agent_type(&entry(LogEntryType::Message, None, "x")), AgentType::Developer);
    let e = entry(LogEntryType::Message, None, "same");
    assert_eq!(determine_agent_type(&e), determine_agent_type(&e.clone()));
}

#[test]
fn statuses() {
    let cases = [
        (LogEntryType::ToolCall, AgentStatus::Working),
        (LogEntryType::ToolResult, AgentStatus::Idle),
        (LogEntryType::Error, AgentStatus::Error),
        (LogEntryType::Message, AgentStatus::Thinking),
        (LogEntryType::TodoUpdate, AgentStatus::Idle),
        (LogEntryType::SessionStart, AgentStatus::Idle),
        (LogEntryType::SessionEnd, AgentStatus::Idle),
    ];
    for (kind, status) in cases {
        assert_eq!(determine_agent_status(&entry(kind, None, "")), status);
    }
}

#[test]
fn structured_fallback_only_for_missing_keys() {
    let e = parse_session_line(r#"{"type":"tool_use","name":5,"tool":"Read"}"#).unwrap();
    assert_eq!(e.tool_name, None);
    let e = parse_session_line(r#"{"type":"message","content":[{"text":"x"}],"message":"m"}"#).unwrap();
    assert_eq!(e.content, "");
    let e = parse_session_line(r#"{"tool":"Read","message":"m"}"#).unwrap();
    assert_eq!(e.tool_name, Some("Read".to_string()));
    assert_eq!(e.content, "m");
    let e = parse_session_line(r#"{"type":7,"timestamp":1,"agent_id":null}"#).unwrap();
    assert_eq!(e.entry_type, LogEntryType::Message);
    assert_eq!(e.timestamp, "");
    assert_eq!(e.agent_id, None);
}

#[test]
fn unicode_whitespace_is_trimmed() {
    let e = parse_debug_line("\u{3000}\u{a0} hello\u{2009}").unwrap();
    assert_eq!(e.content, "hello");
    let e = parse_debug_line("Tool call:\u{2003}Edit\u{85}file").unwrap();
    assert_eq!(e.tool_name, Some("Edit".to_string()));
}

#[test]
fn malformed_structured_line_matches_text_parse() {
    let line = "  {oops Read  ";
    let a = parse_session_line(line).unwrap();
    let b = parse_debug_line(line).unwrap();
    assert_eq!(a.entry_type, b.entry_type);
    assert_eq!(a.content, b.content);
    assert_eq!(a.tool_name, b.tool_name);
    assert_eq!(a.entry_type, LogEntryType::ToolCall);
}
