//! The data that flows from the log files to the office view.
use vstd::prelude::*;

verus! {

/// The role in the office that handles a kind of work.
#[derive(Debug, Clone, Copy, PartialEq, Eq, Structural)]
pub enum AgentType {
    /// File exploration (Read, Glob)
    Explorer,
    /// Content analysis (Grep, WebSearch)
    Analyzer,
    /// Planning and task management (TodoWrite, Task)
    Architect,
    /// Code writing (Write, Edit, NotebookEdit)
    Developer,
    /// Command execution (Bash in general)
    Operator,
    /// Testing and validation (Bash running tests or git)
    Validator,
    /// External integrations (WebFetch, MCP tools, Skill)
    Connector,
    /// User communication (AskUserQuestion, errors)
    Liaison,
}

impl Default for AgentType {
    fn default() -> (r: Self)
        ensures
            r == AgentType::Developer,
    {
        AgentType::Developer
    }
}

/// What an agent is doing right now.
#[derive(Debug, Clone, Copy, PartialEq, Eq, Structural)]
pub enum AgentStatus {
    Idle,
    Working,
    Thinking,
    Passing,
    Error,
}

impl Default for AgentStatus {
    fn default() -> (r: Self)
        ensures
            r == AgentStatus::Idle,
    {
        AgentStatus::Idle
    }
}

/// The kind of activity that a log entry records.
#[derive(Debug, Clone, Copy, PartialEq, Eq, Structural)]
pub enum LogEntryType {
    ToolCall,
    ToolResult,
    Message,
    Error,
    TodoUpdate,
    SessionStart,
    SessionEnd,
}

/// One parsed line of a log.
#[derive(Debug, Clone)]
pub struct LogEntry {
    pub timestamp: String,
    pub entry_type: LogEntryType,
    pub content: String,
    pub agent_id: Option<String>,
    pub tool_name: Option<String>,
}

pub open spec fn opt_view(o: Option<String>) -> Option<Seq<char>> {
    match o {
        Some(s) => Some(s@),
        None => None,
    }
}

/// A log entry with its texts seen as character sequences.
pub struct LogEntryView {
    pub timestamp: Seq<char>,
    pub entry_type: LogEntryType,
    pub content: Seq<char>,
    pub agent_id: Option<Seq<char>>,
    pub tool_name: Option<Seq<char>>,
}

impl View for LogEntry {
    type V = LogEntryView;

    open spec fn view(&self) -> LogEntryView {
        LogEntryView {
            timestamp: self.timestamp@,
            entry_type: self.entry_type,
            content: self.content@,
            agent_id: opt_view(self.agent_id),
            tool_name: opt_view(self.tool_name),
        }
    }
}

/// Desk coordinates on the floor plan, in whole pixels.
#[derive(Debug, Clone, Copy, PartialEq, Eq, Structural)]
pub struct DeskPosition {
    pub x: u32,
    pub y: u32,
}

/// An agent of the office: the state of one role.
#[derive(Debug, Clone)]
pub struct Agent {
    pub id: String,
    pub agent_type: AgentType,
    pub status: AgentStatus,
    pub current_task: Option<String>,
    pub desk_position: DeskPosition,
}

pub struct AgentView {
    pub id: Seq<char>,
    pub agent_type: AgentType,
    pub status: AgentStatus,
    pub current_task: Option<Seq<char>>,
    pub desk_position: DeskPosition,
}

impl View for Agent {
    type V = AgentView;

    open spec fn view(&self) -> AgentView {
        AgentView {
            id: self.id@,
            agent_type: self.agent_type,
            status: self.status,
            current_task: opt_view(self.current_task),
            desk_position: self.desk_position,
        }
    }
}

impl Agent {
    /// An idle agent with no task.
    pub fn new(id: String, agent_type: AgentType, desk_position: DeskPosition) -> (r: Self)
        ensures
            r@ == (AgentView {
                id: id@,
                agent_type,
                status: AgentStatus::Idle,
                current_task: None,
                desk_position,
            }),
    {
        Agent { id, agent_type, status: AgentStatus::Idle, current_task: None, desk_position }
    }
}

/// An event for the presentation layer.
#[derive(Debug, Clone)]
pub enum AppEvent {
    LogEntry(LogEntry),
    AgentUpdate(Agent),
    SessionStart { session_id: String },
    SessionEnd { session_id: String },
    WatcherStatus { active: bool, path: String },
    /// Many logs and agents in one message.
    BatchUpdate { logs: Vec<LogEntry>, agents: Vec<Agent> },
}

} // verus!
