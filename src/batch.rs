//! Collecting the entries of one change notification into a single update.
use vstd::prelude::*;

use crate::log_parser::{
    agent_type_for, debug_entry, determine_agent_status, determine_agent_type, entry_view_opt,
    parse_debug_line, parse_session_line, session_entry, status_for,
};
use crate::models::{
    opt_view, Agent, AgentStatus, AgentType, AgentView, AppEvent, DeskPosition, LogEntry,
    LogEntryType, LogEntryView,
};
use crate::text::{chars_of, is_text, slice_chars, string_of};

verus! {

/// Most characters that a task summary keeps.
pub const TASK_SUMMARY_CAP: usize = 200;

pub open spec fn cap_summary(s: Seq<char>) -> Seq<char> {
    if s.len() <= TASK_SUMMARY_CAP {
        s
    } else {
        s.take(TASK_SUMMARY_CAP as int)
    }
}

pub open spec fn labelled(prefix: Seq<char>, tool: Option<Seq<char>>) -> Seq<char> {
    match tool {
        Some(n) => prefix + ": "@ + n,
        None => prefix,
    }
}

/// A short description of what an entry's agent is doing.
pub open spec fn task_summary(e: LogEntryView) -> Seq<char> {
    cap_summary(
        match e.entry_type {
            LogEntryType::ToolCall => labelled("Tool call"@, e.tool_name),
            LogEntryType::ToolResult => labelled("Tool result"@, e.tool_name),
            LogEntryType::TodoUpdate => "Todo update"@,
            LogEntryType::SessionStart => "Session start"@,
            LogEntryType::SessionEnd => "Session end"@,
            LogEntryType::Error => "Error"@,
            LogEntryType::Message => e.content,
        },
    )
}

/// The stable identifier of a role.
pub open spec fn agent_id(t: AgentType) -> Seq<char> {
    match t {
        AgentType::Explorer => "explorer"@,
        AgentType::Analyzer => "analyzer"@,
        AgentType::Architect => "architect"@,
        AgentType::Developer => "developer"@,
        AgentType::Operator => "operator"@,
        AgentType::Validator => "validator"@,
        AgentType::Connector => "connector"@,
        AgentType::Liaison => "liaison"@,
    }
}

/// The desk of a role: three rows, of three, three and two desks.
pub open spec fn desk_position(t: AgentType) -> DeskPosition {
    match t {
        AgentType::Explorer => DeskPosition { x: 60, y: 130 },
        AgentType::Analyzer => DeskPosition { x: 150, y: 130 },
        AgentType::Architect => DeskPosition { x: 240, y: 130 },
        AgentType::Developer => DeskPosition { x: 60, y: 320 },
        AgentType::Operator => DeskPosition { x: 150, y: 320 },
        AgentType::Validator => DeskPosition { x: 240, y: 320 },
        AgentType::Connector => DeskPosition { x: 60, y: 520 },
        AgentType::Liaison => DeskPosition { x: 150, y: 520 },
    }
}

/// The state of the role that handles an entry, after that entry.
pub open spec fn agent_view_for(e: LogEntryView) -> AgentView {
    let t = agent_type_for(e);
    AgentView {
        id: agent_id(t),
        agent_type: t,
        status: status_for(e.entry_type),
        current_task: Some(task_summary(e)),
        desk_position: desk_position(t),
    }
}

/// The agent of a role before anything happened.
pub open spec fn idle_agent_view(t: AgentType) -> AgentView {
    AgentView {
        id: agent_id(t),
        agent_type: t,
        status: AgentStatus::Idle,
        current_task: None,
        desk_position: desk_position(t),
    }
}

/// The roles of the office, in the order of the floor plan.
pub open spec fn roster() -> Seq<AgentType> {
    seq![
        AgentType::Explorer,
        AgentType::Analyzer,
        AgentType::Architect,
        AgentType::Developer,
        AgentType::Operator,
        AgentType::Validator,
        AgentType::Connector,
        AgentType::Liaison,
    ]
}

/// Index `i` holds the first agent of role `t`.
pub open spec fn is_first_of(agents: Seq<AgentView>, t: AgentType, i: int) -> bool {
    &&& 0 <= i < agents.len()
    &&& agents[i].agent_type == t
    &&& forall|j: int| 0 <= j < i ==> agents[j].agent_type != t
}

/// `a` in place of the agent of its role, or added at the end if its role has none yet.
pub open spec fn upsert(agents: Seq<AgentView>, a: AgentView) -> Seq<AgentView> {
    if exists|i: int| is_first_of(agents, a.agent_type, i) {
        agents.update(choose|i: int| is_first_of(agents, a.agent_type, i), a)
    } else {
        agents.push(a)
    }
}

/// At most one agent per role.
pub open spec fn role_states_unique(agents: Seq<AgentView>) -> bool {
    forall|i: int, j: int|
        0 <= i < agents.len() && 0 <= j < agents.len() && i != j ==> agents[i].agent_type
            != agents[j].agent_type
}

/// The two dialects of log lines.
#[derive(Debug, Clone, Copy, PartialEq, Eq, Structural)]
pub enum LogDialect {
    /// Free text, one entry per line (`.txt`).
    Text,
    /// One JSON record per line (`.jsonl`, `.json`).
    Structured,
}

pub open spec fn dialect_of_extension(ext: Seq<char>) -> Option<LogDialect> {
    if ext == "txt"@ {
        Some(LogDialect::Text)
    } else if ext == "jsonl"@ || ext == "json"@ {
        Some(LogDialect::Structured)
    } else {
        None
    }
}

pub open spec fn line_entry(line: Seq<char>, dialect: LogDialect) -> Option<LogEntryView> {
    match dialect {
        LogDialect::Text => debug_entry(line),
        LogDialect::Structured => session_entry(line),
    }
}

/// The dialect of a file by its extension; files of other extensions are not read.
pub fn dialect_for_extension(ext: &str) -> (r: Option<LogDialect>)
    ensures
        r == dialect_of_extension(ext@),
{
    let e = chars_of(ext);
    if is_text(e.as_slice(), "txt") {
        Some(LogDialect::Text)
    } else if is_text(e.as_slice(), "jsonl") || is_text(e.as_slice(), "json") {
        Some(LogDialect::Structured)
    } else {
        None
    }
}

/// Parses one line in the given dialect.
pub fn parse_line(line: &str, dialect: LogDialect) -> (r: Option<LogEntry>)
    ensures
        entry_view_opt(r) == line_entry(line@, dialect),
{
    match dialect {
        LogDialect::Text => parse_debug_line(line),
        LogDialect::Structured => parse_session_line(line),
    }
}

fn append_text(out: &mut Vec<char>, w: &str)
    ensures
        final(out)@ == old(out)@ + w@,
{
    let mut cs = chars_of(w);
    out.append(&mut cs);
}

fn label(prefix: &str, tool: &Option<String>) -> (r: Vec<char>)
    ensures
        r@ == labelled(prefix@, opt_view(*tool)),
{
    let mut out = chars_of(prefix);
    match tool {
        Some(name) => {
            append_text(&mut out, ": ");
            append_text(&mut out, name.as_str());
        },
        None => {},
    }
    out
}

/// A short description of what this entry's agent is doing.
pub fn summarize_current_task(entry: &LogEntry) -> (r: String)
    ensures
        r@ == task_summary(entry@),
{
    let full: Vec<char> = match entry.entry_type {
        LogEntryType::ToolCall => label("Tool call", &entry.tool_name),
        LogEntryType::ToolResult => label("Tool result", &entry.tool_name),
        LogEntryType::TodoUpdate => chars_of("Todo update"),
        LogEntryType::SessionStart => chars_of("Session start"),
        LogEntryType::SessionEnd => chars_of("Session end"),
        LogEntryType::Error => chars_of("Error"),
        LogEntryType::Message => chars_of(entry.content.as_str()),
    };
    if full.len() <= TASK_SUMMARY_CAP {
        string_of(full.as_slice())
    } else {
        let head = slice_chars(full.as_slice(), 0, TASK_SUMMARY_CAP);
        string_of(head.as_slice())
    }
}

/// The stable identifier of a role.
pub fn agent_id_for_type(agent_type: AgentType) -> (r: &'static str)
    ensures
        r@ == agent_id(agent_type),
{
    match agent_type {
        AgentType::Explorer => "explorer",
        AgentType::Analyzer => "analyzer",
        AgentType::Architect => "architect",
        AgentType::Developer => "developer",
        AgentType::Operator => "operator",
        AgentType::Validator => "validator",
        AgentType::Connector => "connector",
        AgentType::Liaison => "liaison",
    }
}

/// The desk of a role on the floor plan.
pub fn get_desk_position(agent_type: AgentType) -> (r: DeskPosition)
    ensures
        r == desk_position(agent_type),
{
    match agent_type {
        AgentType::Explorer => DeskPosition { x: 60, y: 130 },
        AgentType::Analyzer => DeskPosition { x: 150, y: 130 },
        AgentType::Architect => DeskPosition { x: 240, y: 130 },
        AgentType::Developer => DeskPosition { x: 60, y: 320 },
        AgentType::Operator => DeskPosition { x: 150, y: 320 },
        AgentType::Validator => DeskPosition { x: 240, y: 320 },
        AgentType::Connector => DeskPosition { x: 60, y: 520 },
        AgentType::Liaison => DeskPosition { x: 150, y: 520 },
    }
}

/// The state of the role that handles this entry, after it.
pub fn agent_for_entry(entry: &LogEntry) -> (r: Agent)
    ensures
        r@ == agent_view_for(entry@),
{
    let agent_type = determine_agent_type(entry);
    Agent {
        id: agent_id_for_type(agent_type).to_owned(),
        agent_type,
        status: determine_agent_status(entry),
        current_task: Some(summarize_current_task(entry)),
        desk_position: get_desk_position(agent_type),
    }
}

fn idle_agent(t: AgentType) -> (r: Agent)
    ensures
        r@ == idle_agent_view(t),
{
    Agent::new(agent_id_for_type(t).to_owned(), t, get_desk_position(t))
}

/// The agents of all roles, idle, in the order of the floor plan.
pub fn get_agents() -> (r: Vec<Agent>)
    ensures
        r@.len() == roster().len(),
        forall|i: int| 0 <= i < r@.len() ==> #[trigger] r@[i]@ == idle_agent_view(roster()[i]),
{
    let mut r: Vec<Agent> = Vec::new();
    r.push(idle_agent(AgentType::Explorer));
    r.push(idle_agent(AgentType::Analyzer));
    r.push(idle_agent(AgentType::Architect));
    r.push(idle_agent(AgentType::Developer));
    r.push(idle_agent(AgentType::Operator));
    r.push(idle_agent(AgentType::Validator));
    r.push(idle_agent(AgentType::Connector));
    r.push(idle_agent(AgentType::Liaison));
    r
}

pub struct BatchView {
    pub logs: Seq<LogEntryView>,
    pub agents: Seq<AgentView>,
}

/// The entries of one notification, in order, and the latest state of each role they touched.
pub struct Batch {
    logs: Vec<LogEntry>,
    agents: Vec<Agent>,
}

pub open spec fn entries_view(v: Seq<LogEntry>) -> Seq<LogEntryView> {
    v.map_values(|e: LogEntry| e@)
}

pub open spec fn agents_view(v: Seq<Agent>) -> Seq<AgentView> {
    v.map_values(|a: Agent| a@)
}

impl View for Batch {
    type V = BatchView;

    closed spec fn view(&self) -> BatchView {
        BatchView { logs: entries_view(self.logs@), agents: agents_view(self.agents@) }
    }
}

impl Batch {
    /// An empty batch.
    pub fn new() -> (r: Self)
        ensures
            r@.logs == Seq::<LogEntryView>::empty(),
            r@.agents == Seq::<AgentView>::empty(),
    {
        let r = Batch { logs: Vec::new(), agents: Vec::new() };
        assert(r@.logs =~= Seq::<LogEntryView>::empty());
        assert(r@.agents =~= Seq::<AgentView>::empty());
        r
    }

    /// Appends the entry, and makes its role's state the one this entry gives.
    pub fn add_entry(&mut self, entry: LogEntry)
        ensures
            final(self)@.logs == old(self)@.logs.push(entry@),
            final(self)@.agents == upsert(old(self)@.agents, agent_view_for(entry@)),
    {
        let agent = agent_for_entry(&entry);
        let ghost a = agent@;
        let ghost old_agents = self@.agents;
        let ghost old_logs = self@.logs;
        let mut i: usize = 0;
        while i < self.agents.len()
            invariant
                i <= self.agents@.len(),
                agents_view(self.agents@) == old_agents,
                entries_view(self.logs@) == old_logs,
                old_agents.len() == self.agents@.len(),
                a == agent@,
                a == agent_view_for(entry@),
                old_agents == old(self)@.agents,
                old_logs == old(self)@.logs,
                forall|j: int| 0 <= j < i ==> old_agents[j].agent_type != a.agent_type,
            decreases self.agents@.len() - i,
        {
            assert(old_agents[i as int] == self.agents@[i as int]@);
            if self.agents[i].agent_type == agent.agent_type {
                assert(is_first_of(old_agents, a.agent_type, i as int));
                let ghost k = choose|k: int| is_first_of(old_agents, a.agent_type, k);
                assert(k == i) by {
                    if k < i {
                        assert(old_agents[k].agent_type != a.agent_type);
                    } else if k > i {
                        assert(old_agents[i as int].agent_type != a.agent_type);
                    }
                };
                self.agents[i] = agent;
                assert(agents_view(self.agents@) =~= old_agents.update(i as int, a));
                self.logs.push(entry);
                assert(entries_view(self.logs@) =~= old_logs.push(entry@));
                return;
            }
            i += 1;
        }
        assert(!exists|k: int| is_first_of(old_agents, a.agent_type, k));
        self.agents.push(agent);
        assert(agents_view(self.agents@) =~= old_agents.push(a));
        self.logs.push(entry);
        assert(entries_view(self.logs@) =~= old_logs.push(entry@));
    }

    /// Parses one line in the given dialect and adds its entry, if it has one.
    pub fn add_line(&mut self, line: &str, dialect: LogDialect) -> (added: bool)
        ensures
            added == line_entry(line@, dialect) is Some,
            match line_entry(line@, dialect) {
                Some(e) => final(self)@.logs == old(self)@.logs.push(e) && final(self)@.agents
                    == upsert(old(self)@.agents, agent_view_for(e)),
                None => final(self)@ == old(self)@,
            },
    {
        match parse_line(line, dialect) {
            Some(entry) => {
                self.add_entry(entry);
                true
            },
            None => false,
        }
    }

    /// The number of entries collected.
    pub fn len(&self) -> (r: usize)
        ensures
            r == self@.logs.len(),
    {
        self.logs.len()
    }

    /// The update to send: none when no entry was collected.
    pub fn into_event(self) -> (r: Option<AppEvent>)
        ensures
            self@.logs.len() == 0 ==> r is None,
            self@.logs.len() > 0 ==> (r matches Some(AppEvent::BatchUpdate { logs, agents })
                && entries_view(logs@) == self@.logs && agents_view(agents@) == self@.agents),
    {
        if self.logs.len() == 0 {
            None
        } else {
            Some(AppEvent::BatchUpdate { logs: self.logs, agents: self.agents })
        }
    }
}

/// Putting an agent into a set of role states with one agent per role keeps one agent per
/// role, and leaves exactly the new agent for its role.
pub proof fn lemma_upsert_replaces(agents: Seq<AgentView>, a: AgentView)
    requires
        role_states_unique(agents),
    ensures
        role_states_unique(upsert(agents, a)),
        exists|i: int| 0 <= i < upsert(agents, a).len() && upsert(agents, a)[i] == a,
        forall|i: int|
            0 <= i < upsert(agents, a).len() && (#[trigger] upsert(agents, a)[i]).agent_type
                == a.agent_type ==> upsert(agents, a)[i] == a,
{
    let t = a.agent_type;
    if exists|i: int| is_first_of(agents, t, i) {
        let k = choose|i: int| is_first_of(agents, t, i);
        let s = upsert(agents, a);
        assert(s == agents.update(k, a));
        assert(s[k] == a);
        assert forall|i: int| 0 <= i < s.len() && (#[trigger] s[i]).agent_type == t implies s[i]
            == a by {
            if i != k {
                assert(agents[i].agent_type == agents[k].agent_type);
            }
        };
    } else {
        assert forall|i: int| 0 <= i < agents.len() implies agents[i].agent_type != t by {
            if agents[i].agent_type == t {
                assert(is_first_of(agents, t, i));
            }
        };
        let s = upsert(agents, a);
        assert(s[agents.len() as int] == a);
    }
}

/// Within one batch, two entries of the same role leave exactly one state for that role:
/// the one that the later entry gives.
pub proof fn lemma_later_entry_wins(agents: Seq<AgentView>, e1: LogEntryView, e2: LogEntryView)
    requires
        role_states_unique(agents),
        agent_type_for(e1) == agent_type_for(e2),
    ensures
        ({
            let s = upsert(upsert(agents, agent_view_for(e1)), agent_view_for(e2));
            &&& role_states_unique(s)
            &&& exists|i: int| 0 <= i < s.len() && s[i] == agent_view_for(e2)
            &&& forall|i: int|
                0 <= i < s.len() && (#[trigger] s[i]).agent_type == agent_type_for(e2) ==> s[i]
                    == agent_view_for(e2)
        }),
{
    lemma_upsert_replaces(agents, agent_view_for(e1));
    lemma_upsert_replaces(upsert(agents, agent_view_for(e1)), agent_view_for(e2));
}

/// Putting in an agent of another role leaves the agents of role `t` as they were.
pub proof fn lemma_upsert_other_role(agents: Seq<AgentView>, a: AgentView, t: AgentType)
    requires
        role_states_unique(agents),
        a.agent_type != t,
    ensures
        forall|x: AgentView|
            x.agent_type == t ==> (upsert(agents, a).contains(x) <==> agents.contains(x)),
{
    let s = upsert(agents, a);
    if exists|i: int| is_first_of(agents, a.agent_type, i) {
        let k = choose|i: int| is_first_of(agents, a.agent_type, i);
        assert forall|x: AgentView| x.agent_type == t implies (s.contains(x) <==> agents.contains(
            x,
        )) by {
            if s.contains(x) {
                let i = choose|i: int| 0 <= i < s.len() && s[i] == x;
                assert(i != k);
                assert(agents[i] == x);
            }
            if agents.contains(x) {
                let i = choose|i: int| 0 <= i < agents.len() && agents[i] == x;
                assert(i != k);
                assert(s[i] == x);
            }
        };
    } else {
        assert forall|x: AgentView| x.agent_type == t implies (s.contains(x) <==> agents.contains(
            x,
        )) by {
            if s.contains(x) {
                let i = choose|i: int| 0 <= i < s.len() && s[i] == x;
                assert(i < agents.len());
                assert(agents[i] == x);
            }
            if agents.contains(x) {
                let i = choose|i: int| 0 <= i < agents.len() && agents[i] == x;
                assert(s[i] == x);
            }
        };
    }
}

/// The role states after the entries `es`, added in order.
pub open spec fn upsert_all(agents: Seq<AgentView>, es: Seq<LogEntryView>) -> Seq<AgentView>
    decreases es.len(),
{
    if es.len() == 0 {
        agents
    } else {
        upsert(upsert_all(agents, es.drop_last()), agent_view_for(es.last()))
    }
}

/// Within one batch, the state of a role is the one that its last entry gives, whatever
/// entries of other roles come after it; and it is the only state of that role.
pub proof fn lemma_last_entry_of_role_wins(
    agents: Seq<AgentView>,
    e: LogEntryView,
    later: Seq<LogEntryView>,
)
    requires
        role_states_unique(agents),
        forall|k: int| 0 <= k < later.len() ==> agent_type_for(#[trigger] later[k]) != agent_type_for(e),
    ensures
        ({
            let s = upsert_all(upsert(agents, agent_view_for(e)), later);
            &&& role_states_unique(s)
            &&& s.contains(agent_view_for(e))
            &&& forall|i: int|
                0 <= i < s.len() && (#[trigger] s[i]).agent_type == agent_type_for(e) ==> s[i]
                    == agent_view_for(e)
        }),
    decreases later.len(),
{
    let v = agent_view_for(e);
    let t = agent_type_for(e);
    if later.len() == 0 {
        lemma_upsert_replaces(agents, v);
        let s = upsert(agents, v);
        let i = choose|i: int| 0 <= i < s.len() && s[i] == v;
        assert(s.contains(v));
    } else {
        let front = later.drop_last();
        assert forall|k: int| 0 <= k < front.len() implies agent_type_for(
            #[trigger] front[k],
        ) != t by {
            assert(front[k] == later[k]);
        };
        lemma_last_entry_of_role_wins(agents, e, front);
        let prev = upsert_all(upsert(agents, v), front);
        let w = agent_view_for(later.last());
        assert(agent_type_for(later[later.len() - 1]) != t);
        lemma_upsert_replaces(prev, w);
        lemma_upsert_other_role(prev, w, t);
        let s = upsert(prev, w);
        assert(s.contains(v));
        assert forall|i: int| 0 <= i < s.len() && (#[trigger] s[i]).agent_type == t implies s[i]
            == v by {
            assert(s.contains(s[i]));
            assert(prev.contains(s[i]));
            let j = choose|j: int| 0 <= j < prev.len() && prev[j] == s[i];
            assert(prev[j].agent_type == t);
        };
    }
}

/// A batch starts with one state per role at most, and adding entries keeps it so.
pub proof fn lemma_batch_roles_unique(agents: Seq<AgentView>, e: LogEntryView)
    requires
        role_states_unique(agents),
    ensures
        role_states_unique(Seq::<AgentView>::empty()),
        role_states_unique(upsert(agents, agent_view_for(e))),
{
    lemma_upsert_replaces(agents, agent_view_for(e));
}

} // verus!
