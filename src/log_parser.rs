//! Parsing of log lines into entries, and the classification of entries into roles.
use vstd::prelude::*;

use crate::models::{opt_view, AgentStatus, AgentType, LogEntry, LogEntryType, LogEntryView};
use crate::text::{
    begins_with_text, chars_of, first_token, first_word, has_text, is_text, lower_chars,
    lower_seq, seq_contains, seq_starts_with, slice_chars, string_of, trim_text, trimmed,
};

verus! {

/// Length of a leading `YYYY-MM-DD HH:MM:SS` timestamp.
pub const TIMESTAMP_LEN: usize = 19;

/// Number of leading digits (the year) that a timestamp starts with.
pub const YEAR_DIGITS: usize = 4;

pub open spec fn is_digit(c: char) -> bool {
    '0' <= c && c <= '9'
}

/// The first `TIMESTAMP_LEN` characters look like a date and time.
pub open spec fn has_timestamp(t: Seq<char>) -> bool {
    &&& t.len() >= TIMESTAMP_LEN
    &&& forall|j: int| 0 <= j < YEAR_DIGITS ==> is_digit(#[trigger] t[j])
    &&& seq_contains(t.take(TIMESTAMP_LEN as int), "-"@)
    &&& (seq_contains(t.take(TIMESTAMP_LEN as int), ":"@) || seq_contains(
        t.take(TIMESTAMP_LEN as int),
        "T"@,
    ))
}

/// Timestamp and content of a trimmed line: the timestamp, and the trimmed rest after the
/// character that follows it; or no timestamp and the whole line.
pub open spec fn split_timestamp(t: Seq<char>) -> (Option<Seq<char>>, Seq<char>) {
    if has_timestamp(t) {
        let rest = if t.len() > TIMESTAMP_LEN + 1 {
            trimmed(t.subrange(TIMESTAMP_LEN + 1, t.len() as int))
        } else {
            Seq::empty()
        };
        (Some(t.take(TIMESTAMP_LEN as int)), rest)
    } else {
        (None, t)
    }
}

pub open spec fn word_opt(s: Seq<char>) -> Option<Seq<char>> {
    if first_word(s).len() > 0 {
        Some(first_word(s))
    } else {
        None
    }
}

/// Tool names looked for in free text, in order of priority.
pub open spec fn known_tools() -> Seq<Seq<char>> {
    seq![
        "Read"@,
        "Write"@,
        "Edit"@,
        "Glob"@,
        "Grep"@,
        "Bash"@,
        "WebSearch"@,
        "WebFetch"@,
        "Task"@,
        "TodoWrite"@,
    ]
}

/// The first of `tools`, from index `i` on, that occurs in `c`.
pub open spec fn first_tool_from(c: Seq<char>, tools: Seq<Seq<char>>, i: int) -> Option<
    Seq<char>,
>
    decreases tools.len() - i,
{
    if i < 0 || i >= tools.len() {
        None
    } else if seq_contains(c, tools[i]) {
        Some(tools[i])
    } else {
        first_tool_from(c, tools, i + 1)
    }
}

pub open spec fn is_error_text(c: Seq<char>) -> bool {
    seq_contains(lower_seq(c), "[error]"@) || seq_contains(lower_seq(c), "error:"@)
}

pub open spec fn is_todo_text(c: Seq<char>) -> bool {
    seq_contains(c, "TodoWrite"@) || seq_contains(c, "Task:"@) || seq_contains(c, "todo"@)
        || seq_contains(c, "TODO"@)
}

/// Kind and tool name of the content of a free-text line, by priority.
pub open spec fn entry_kind_of(c: Seq<char>) -> (LogEntryType, Option<Seq<char>>) {
    if seq_starts_with(c, "Tool call: "@) {
        (LogEntryType::ToolCall, word_opt(c.subrange("Tool call: "@.len() as int, c.len() as int)))
    } else if seq_starts_with(c, "Tool result: "@) {
        (
            LogEntryType::ToolResult,
            word_opt(c.subrange("Tool result: "@.len() as int, c.len() as int)),
        )
    } else if is_error_text(c) {
        (LogEntryType::Error, None)
    } else if is_todo_text(c) {
        (LogEntryType::TodoUpdate, Some("TodoWrite"@))
    } else {
        match first_tool_from(c, known_tools(), 0) {
            Some(t) => (LogEntryType::ToolCall, Some(t)),
            None => (LogEntryType::Message, None),
        }
    }
}

/// The entry of a line that has already been trimmed.
pub open spec fn entry_of_trimmed(t: Seq<char>) -> Option<LogEntryView> {
    if t.len() == 0 {
        None
    } else {
        let (ts, content) = split_timestamp(t);
        let (kind, tool) = entry_kind_of(content);
        Some(
            LogEntryView {
                timestamp: match ts {
                    Some(s) => s,
                    None => Seq::empty(),
                },
                entry_type: kind,
                content,
                agent_id: None,
                tool_name: tool,
            },
        )
    }
}

/// The entry of a free-text log line.
pub open spec fn debug_entry(line: Seq<char>) -> Option<LogEntryView> {
    entry_of_trimmed(trimmed(line))
}

pub open spec fn entry_view_opt(r: Option<LogEntry>) -> Option<LogEntryView> {
    match r {
        Some(e) => Some(e@),
        None => None,
    }
}

fn extract_timestamp(line: &Vec<char>) -> (r: (Option<String>, Vec<char>))
    ensures
        opt_view(r.0) == split_timestamp(line@).0,
        r.1@ == split_timestamp(line@).1,
{
    if line.len() >= TIMESTAMP_LEN {
        let mut year = true;
        let mut j: usize = 0;
        while j < YEAR_DIGITS
            invariant
                j <= YEAR_DIGITS <= line@.len(),
                year == (forall|k: int| 0 <= k < j ==> is_digit(#[trigger] line@[k])),
            decreases YEAR_DIGITS - j,
        {
            let c = line[j];
            year = year && '0' <= c && c <= '9';
            j += 1;
        }
        if year {
            let head = slice_chars(line.as_slice(), 0, TIMESTAMP_LEN);
            assert(head@ == line@.take(TIMESTAMP_LEN as int));
            if has_text(head.as_slice(), "-") && (has_text(head.as_slice(), ":") || has_text(
                head.as_slice(),
                "T",
            )) {
                let rest = if line.len() > TIMESTAMP_LEN + 1 {
                    let tail = slice_chars(line.as_slice(), TIMESTAMP_LEN + 1, line.len());
                    let tail_text = string_of(tail.as_slice());
                    let t = trim_text(tail_text.as_str());
                    chars_of(t.as_str())
                } else {
                    Vec::new()
                };
                return (Some(string_of(head.as_slice())), rest);
            }
        }
    }
    (None, line.clone())
}

/// The first word after `prefix_len` characters of `c`, if there is one.
fn word_after(c: &Vec<char>, prefix_len: usize) -> (r: Option<String>)
    requires
        prefix_len <= c@.len(),
    ensures
        opt_view(r) == word_opt(c@.subrange(prefix_len as int, c@.len() as int)),
{
    let rest = slice_chars(c.as_slice(), prefix_len, c.len());
    let text = string_of(rest.as_slice());
    first_token(text.as_str())
}

/// Kind and tool name of the content of a free-text line.
pub fn determine_entry_type(text: &str) -> (r: (LogEntryType, Option<String>))
    ensures
        r.0 == entry_kind_of(text@).0,
        opt_view(r.1) == entry_kind_of(text@).1,
{
    let content = chars_of(text);
    let content = &content;
    let call = "Tool call: ";
    let result = "Tool result: ";
    if begins_with_text(content.as_slice(), call) {
        let n = chars_of(call).len();
        return (LogEntryType::ToolCall, word_after(content, n));
    }
    if begins_with_text(content.as_slice(), result) {
        let n = chars_of(result).len();
        return (LogEntryType::ToolResult, word_after(content, n));
    }
    let lower = lower_chars(content.as_slice());
    if has_text(lower.as_slice(), "[error]") || has_text(lower.as_slice(), "error:") {
        return (LogEntryType::Error, None);
    }
    if has_text(content.as_slice(), "TodoWrite") || has_text(content.as_slice(), "Task:")
        || has_text(content.as_slice(), "todo") || has_text(content.as_slice(), "TODO") {
        return (LogEntryType::TodoUpdate, Some("TodoWrite".to_owned()));
    }
    let tools: Vec<&str> = vec![
        "Read",
        "Write",
        "Edit",
        "Glob",
        "Grep",
        "Bash",
        "WebSearch",
        "WebFetch",
        "Task",
        "TodoWrite",
    ];
    let ghost names = tools@.map_values(|t: &str| t@);
    assert(names =~= known_tools());
    let mut i: usize = 0;
    while i < tools.len()
        invariant
            i <= tools@.len(),
            names == tools@.map_values(|t: &str| t@),
            names == known_tools(),
            content@ == text@,
            !seq_starts_with(content@, "Tool call: "@),
            !seq_starts_with(content@, "Tool result: "@),
            !is_error_text(content@),
            !is_todo_text(content@),
            first_tool_from(content@, names, 0) == first_tool_from(content@, names, i as int),
        decreases tools@.len() - i,
    {
        let t = tools[i];
        assert(names[i as int] == t@);
        if has_text(content.as_slice(), t) {
            assert(first_tool_from(content@, names, i as int) == Some(t@));
            return (LogEntryType::ToolCall, Some(t.to_owned()));
        }
        assert(first_tool_from(content@, names, i as int) == first_tool_from(
            content@,
            names,
            i + 1,
        ));
        i += 1;
    }
    assert(first_tool_from(content@, names, i as int) == None::<Seq<char>>);
    (LogEntryType::Message, None)
}

/// Parses a free-text line that has already been trimmed.
pub fn parse_trimmed_line(t: &str) -> (r: Option<LogEntry>)
    ensures
        entry_view_opt(r) == entry_of_trimmed(t@),
{
    let line = chars_of(t);
    if line.len() == 0 {
        return None;
    }
    let (timestamp, content) = extract_timestamp(&line);
    let content = string_of(content.as_slice());
    let (entry_type, tool_name) = determine_entry_type(content.as_str());
    let timestamp = match timestamp {
        Some(s) => s,
        None => String::new(),
    };
    Some(
        LogEntry {
            timestamp,
            entry_type,
            content,
            agent_id: None,
            tool_name,
        },
    )
}

/// Parses a line of a free-text debug log; a blank line gives no entry.
pub fn parse_debug_line(line: &str) -> (r: Option<LogEntry>)
    ensures
        entry_view_opt(r) == debug_entry(line@),
{
    let t = trim_text(line);
    parse_trimmed_line(t.as_str())
}

/// Whether a text parses as a JSON document.
pub uninterp spec fn json_parses(s: Seq<char>) -> bool;

/// What the top-level object of the JSON text `s` holds under `key`: none when the text is
/// no object or lacks the key; `Some(None)` when the value there is not a string; and
/// `Some(Some(t))` when it is the string `t`.
pub uninterp spec fn json_field(s: Seq<char>, key: Seq<char>) -> Option<Option<Seq<char>>>;

/// What a JSON record holds under one key, as far as the parser cares.
#[derive(Debug, Clone, PartialEq, Eq)]
pub enum JsonField {
    /// The key is not there.
    Absent,
    /// The key holds something other than a string.
    Other,
    /// The key holds this string.
    Text(String),
}

impl View for JsonField {
    type V = Option<Option<Seq<char>>>;

    open spec fn view(&self) -> Option<Option<Seq<char>>> {
        match self {
            JsonField::Absent => None,
            JsonField::Other => Some(None),
            JsonField::Text(t) => Some(Some(t@)),
        }
    }
}

/// Relies on `serde_json::from_str` into a `serde_json::Value` (fails exactly when the text
/// is not JSON), then on `Value::get` (none for a missing key or a non-object) and
/// `Value::as_str` (none for a non-string) for each key.
#[verifier::external_body]
fn json_fields(line: &str, keys: &[&str]) -> (r: Option<Vec<JsonField>>)
    ensures
        r is Some <==> json_parses(line@),
        r is Some ==> r->0@.len() == keys@.len(),
        r is Some ==> forall|i: int|
            0 <= i < keys@.len() ==> (#[trigger] r->0@[i])@ == json_field(line@, keys@[i]@),
{
    let doc: serde_json::Value = serde_json::from_str(line).ok()?;
    Some(
        keys.iter().map(|k| match doc.get(*k) {
            None => JsonField::Absent,
            Some(v) => v.as_str().map_or(JsonField::Other, |t| JsonField::Text(t.to_string())),
        }).collect(),
    )
}

/// The string of a field, if it holds one.
pub open spec fn field_text(f: Option<Option<Seq<char>>>) -> Option<Seq<char>> {
    match f {
        Some(Some(t)) => Some(t),
        _ => None,
    }
}

/// The string of field `a` if the key is there, else the string of field `b`.
pub open spec fn present_or(a: Option<Option<Seq<char>>>, b: Option<Option<Seq<char>>>) -> Option<
    Seq<char>,
> {
    match a {
        Some(x) => x,
        None => field_text(b),
    }
}

/// Kind of a structured entry by its `type` field.
pub open spec fn record_kind(ty: Option<Seq<char>>) -> LogEntryType {
    match ty {
        Some(t) => if t == "tool_use"@ {
            LogEntryType::ToolCall
        } else if t == "tool_result"@ {
            LogEntryType::ToolResult
        } else if t == "error"@ {
            LogEntryType::Error
        } else {
            LogEntryType::Message
        },
        None => LogEntryType::Message,
    }
}

pub open spec fn or_empty(a: Option<Seq<char>>) -> Seq<char> {
    match a {
        Some(s) => s,
        None => Seq::empty(),
    }
}

/// The entry made of the fields of a structured line. `name` falls back to `tool`, and
/// `content` to `message`, only when the first key is missing.
pub open spec fn fields_entry(
    kind: Option<Option<Seq<char>>>,
    name: Option<Option<Seq<char>>>,
    tool: Option<Option<Seq<char>>>,
    content: Option<Option<Seq<char>>>,
    message: Option<Option<Seq<char>>>,
    timestamp: Option<Option<Seq<char>>>,
    agent_id: Option<Option<Seq<char>>>,
) -> LogEntryView {
    LogEntryView {
        timestamp: or_empty(field_text(timestamp)),
        entry_type: record_kind(field_text(kind)),
        content: or_empty(present_or(content, message)),
        agent_id: field_text(agent_id),
        tool_name: present_or(name, tool),
    }
}

/// The entry of a trimmed line that parses as JSON.
pub open spec fn json_entry(t: Seq<char>) -> LogEntryView {
    fields_entry(
        json_field(t, "type"@),
        json_field(t, "name"@),
        json_field(t, "tool"@),
        json_field(t, "content"@),
        json_field(t, "message"@),
        json_field(t, "timestamp"@),
        json_field(t, "agent_id"@),
    )
}

/// The entry of a line of a structured session log: from its JSON fields, or, when the
/// line is no JSON, as a free-text line.
pub open spec fn session_entry(line: Seq<char>) -> Option<LogEntryView> {
    let t = trimmed(line);
    if t.len() == 0 {
        None
    } else if json_parses(t) {
        Some(json_entry(t))
    } else {
        entry_of_trimmed(t)
    }
}

/// A structured line that is no JSON gives what the free-text parser gives for the same
/// line; so a line that is not blank always gives an entry.
pub proof fn lemma_session_falls_back_to_text(line: Seq<char>)
    requires
        !json_parses(trimmed(line)),
    ensures
        session_entry(line) == debug_entry(line),
        trimmed(line).len() > 0 ==> session_entry(line) is Some,
{
}

/// The fields of a structured log line that become an entry.
pub struct SessionRecord {
    pub kind: JsonField,
    pub name: JsonField,
    pub tool: JsonField,
    pub content: JsonField,
    pub message: JsonField,
    pub timestamp: JsonField,
    pub agent_id: JsonField,
}

fn text_of(f: JsonField) -> (r: Option<String>)
    ensures
        opt_view(r) == field_text(f@),
{
    match f {
        JsonField::Text(t) => Some(t),
        _ => None,
    }
}

fn present_or_text(a: JsonField, b: JsonField) -> (r: Option<String>)
    ensures
        opt_view(r) == present_or(a@, b@),
{
    match a {
        JsonField::Absent => text_of(b),
        other => text_of(other),
    }
}

fn text_or_empty(a: Option<String>) -> (r: String)
    ensures
        r@ == or_empty(opt_view(a)),
{
    match a {
        Some(s) => s,
        None => String::new(),
    }
}

/// Kind of a structured entry by its `type` field.
pub fn record_kind_of(ty: &Option<String>) -> (r: LogEntryType)
    ensures
        r == record_kind(opt_view(*ty)),
{
    match ty {
        Some(t) => {
            let c = chars_of(t.as_str());
            if is_text(c.as_slice(), "tool_use") {
                LogEntryType::ToolCall
            } else if is_text(c.as_slice(), "tool_result") {
                LogEntryType::ToolResult
            } else if is_text(c.as_slice(), "error") {
                LogEntryType::Error
            } else {
                LogEntryType::Message
            }
        },
        None => LogEntryType::Message,
    }
}

impl SessionRecord {
    /// The entry that these fields describe.
    pub fn into_entry(self) -> (r: LogEntry)
        ensures
            r@ == fields_entry(
                self.kind@,
                self.name@,
                self.tool@,
                self.content@,
                self.message@,
                self.timestamp@,
                self.agent_id@,
            ),
    {
        let kind = text_of(self.kind);
        let entry_type = record_kind_of(&kind);
        LogEntry {
            timestamp: text_or_empty(text_of(self.timestamp)),
            entry_type,
            content: text_or_empty(present_or_text(self.content, self.message)),
            agent_id: text_of(self.agent_id),
            tool_name: present_or_text(self.name, self.tool),
        }
    }
}

fn pop_field(fields: &mut Vec<JsonField>) -> (r: JsonField)
    requires
        old(fields)@.len() > 0,
    ensures
        r == old(fields)@.last(),
        final(fields)@ == old(fields)@.drop_last(),
{
    match fields.pop() {
        Some(f) => f,
        None => JsonField::Absent,
    }
}

/// Parses a line of a structured session log; a line that is no JSON is parsed as free
/// text, and a blank line gives no entry.
pub fn parse_session_line(line: &str) -> (r: Option<LogEntry>)
    ensures
        entry_view_opt(r) == session_entry(line@),
{
    let t = trim_text(line);
    if chars_of(t.as_str()).len() == 0 {
        return None;
    }
    let keys: Vec<&str> = vec!["type", "name", "tool", "content", "message", "timestamp", "agent_id"];
    match json_fields(t.as_str(), keys.as_slice()) {
        Some(fields) => {
            let ghost f = fields@;
            assert(f[0]@ == json_field(t@, keys@[0]@));
            assert(f[1]@ == json_field(t@, keys@[1]@));
            assert(f[2]@ == json_field(t@, keys@[2]@));
            assert(f[3]@ == json_field(t@, keys@[3]@));
            assert(f[4]@ == json_field(t@, keys@[4]@));
            assert(f[5]@ == json_field(t@, keys@[5]@));
            assert(f[6]@ == json_field(t@, keys@[6]@));
            let mut fields = fields;
            let agent_id = pop_field(&mut fields);
            let timestamp = pop_field(&mut fields);
            let message = pop_field(&mut fields);
            let content = pop_field(&mut fields);
            let tool = pop_field(&mut fields);
            let name = pop_field(&mut fields);
            let kind = pop_field(&mut fields);
            let record = SessionRecord { kind, name, tool, content, message, timestamp, agent_id };
            Some(record.into_entry())
        },
        None => parse_trimmed_line(t.as_str()),
    }
}

/// The validation keywords that send a shell command to the validator.
pub open spec fn is_check_command(c: Seq<char>) -> bool {
    seq_contains(c, "test"@) || seq_contains(c, "git"@) || seq_contains(c, "jest"@)
        || seq_contains(c, "vitest"@) || seq_contains(c, "pytest"@)
}

/// Role of a lowercased tool name; `content` is the lowercased entry content.
pub open spec fn tool_category(t: Seq<char>, content: Seq<char>) -> AgentType {
    if t == "read"@ || t == "glob"@ {
        AgentType::Explorer
    } else if t == "grep"@ || t == "websearch"@ {
        AgentType::Analyzer
    } else if t == "todowrite"@ || t == "task"@ {
        AgentType::Architect
    } else if t == "write"@ || t == "edit"@ || t == "notebookedit"@ {
        AgentType::Developer
    } else if t == "bash"@ {
        if is_check_command(content) {
            AgentType::Validator
        } else {
            AgentType::Operator
        }
    } else if t == "webfetch"@ || t == "skill"@ || seq_starts_with(t, "mcp__"@) {
        AgentType::Connector
    } else if t == "askuserquestion"@ {
        AgentType::Liaison
    } else {
        AgentType::Developer
    }
}

/// The role that handles an entry.
pub open spec fn agent_type_for(e: LogEntryView) -> AgentType {
    match e.tool_name {
        Some(t) => tool_category(lower_seq(t), lower_seq(e.content)),
        None => if e.entry_type == LogEntryType::Error {
            AgentType::Liaison
        } else {
            AgentType::Developer
        },
    }
}

/// Classification depends on nothing but the entry: entries that are equal as values go to
/// the same role and the same status.
pub proof fn lemma_category_deterministic(e1: LogEntryView, e2: LogEntryView)
    requires
        e1 == e2,
    ensures
        agent_type_for(e1) == agent_type_for(e2),
        status_for(e1.entry_type) == status_for(e2.entry_type),
{
}

/// The status that an entry of this kind puts its agent in.
pub open spec fn status_for(k: LogEntryType) -> AgentStatus {
    match k {
        LogEntryType::ToolCall => AgentStatus::Working,
        LogEntryType::ToolResult => AgentStatus::Idle,
        LogEntryType::Error => AgentStatus::Error,
        LogEntryType::Message => AgentStatus::Thinking,
        _ => AgentStatus::Idle,
    }
}

/// Which role should handle this entry.
pub fn determine_agent_type(entry: &LogEntry) -> (r: AgentType)
    ensures
        r == agent_type_for(entry@),
{
    match &entry.tool_name {
        Some(tool) => {
            let tc = chars_of(tool.as_str());
            let t = lower_chars(tc.as_slice());
            let t = t.as_slice();
            if is_text(t, "read") || is_text(t, "glob") {
                return AgentType::Explorer;
            }
            if is_text(t, "grep") || is_text(t, "websearch") {
                return AgentType::Analyzer;
            }
            if is_text(t, "todowrite") || is_text(t, "task") {
                return AgentType::Architect;
            }
            if is_text(t, "write") || is_text(t, "edit") || is_text(t, "notebookedit") {
                return AgentType::Developer;
            }
            if is_text(t, "bash") {
                let cc = chars_of(entry.content.as_str());
                let c = lower_chars(cc.as_slice());
                let c = c.as_slice();
                if has_text(c, "test") || has_text(c, "git") || has_text(c, "jest") || has_text(
                    c,
                    "vitest",
                ) || has_text(c, "pytest") {
                    return AgentType::Validator;
                }
                return AgentType::Operator;
            }
            if is_text(t, "webfetch") || is_text(t, "skill") || begins_with_text(t, "mcp__") {
                return AgentType::Connector;
            }
            if is_text(t, "askuserquestion") {
                return AgentType::Liaison;
            }
            AgentType::Developer
        },
        None => {
            if entry.entry_type == LogEntryType::Error {
                AgentType::Liaison
            } else {
                AgentType::Developer
            }
        },
    }
}

/// The status that this entry puts its agent in.
pub fn determine_agent_status(entry: &LogEntry) -> (r: AgentStatus)
    ensures
        r == status_for(entry.entry_type),
{
    match entry.entry_type {
        LogEntryType::ToolCall => AgentStatus::Working,
        LogEntryType::ToolResult => AgentStatus::Idle,
        LogEntryType::Error => AgentStatus::Error,
        LogEntryType::Message => AgentStatus::Thinking,
        _ => AgentStatus::Idle,
    }
}

} // verus!
