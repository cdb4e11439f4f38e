//! The autonomous agent: a bounded think-act loop in which the completion
//! service picks registered tools by answering in a small JSON protocol.
//!
//! The host drives the loop. Each turn it calls [`AutonomousAgent::next_turn`],
//! sends [`AutonomousAgent::request`] to the completion service, frames the
//! reply with [`clean_json`], decodes it into an [`AgentAction`], runs the tool
//! that [`AutonomousAgent::tool_to_call`] names, and hands everything to
//! [`AutonomousAgent::process_response`].

use vstd::prelude::*;
use crate::completion::{CompletionRequest, Message, Role};
use crate::text::{
    chars_of, concat, contains, contains_seq, find_char, is_first, is_last, join, joined, prefix,
    prefix_of, rfind_char, slice_string, str_eq, views,
};

verus! {

#[verifier::external_type_specification]
#[verifier::external_body]
pub struct ExValue(serde_json::Value);

/// Relies on the derived `Clone` of `serde_json::Value`: an equal value.
pub assume_specification[ <serde_json::Value as Clone>::clone ](v: &serde_json::Value) -> (r: serde_json::Value)
    ensures
        r == *v,
;

/// One parameter that a tool declares; used only to describe the tool.
#[derive(Debug, Clone)]
pub struct ParameterDef {
    pub param_type: String,
    pub description: String,
    pub required: bool,
}

/// A tool as the agent describes it to the completion service. The code that
/// runs the tool stays with the host, under the same name.
#[derive(Debug, Clone)]
pub struct AgentTool {
    pub name: String,
    pub description: String,
    pub parameters: Vec<(String, ParameterDef)>,
}

/// What an entry of the action history records.
#[derive(Debug, Clone, Copy, PartialEq, Eq, Structural)]
pub enum ActionKind {
    Thought,
    ToolCall,
    TextResponse,
}

/// One entry of the action history.
#[derive(Debug)]
pub struct ActionRecord {
    pub step: usize,
    pub action_type: ActionKind,
    pub tool_name: Option<String>,
    pub tool_args: Option<serde_json::Value>,
    pub tool_result: Option<String>,
    pub thought: Option<String>,
}

/// A reply of the completion service, decoded from the action protocol.
/// A missing `args` object is handed over as an empty object.
#[derive(Debug)]
pub struct AgentAction {
    pub thought: Option<String>,
    pub action: Option<String>,
    pub args: serde_json::Value,
    pub result: Option<String>,
}

/// The state of one run.
#[derive(Debug)]
pub struct AgentState {
    pub total_steps: usize,
    pub tool_calls: usize,
    pub action_history: Vec<ActionRecord>,
    pub is_complete: bool,
    pub final_result: Option<String>,
}

/// What a run hands back.
#[derive(Debug)]
pub struct AgentResult {
    pub success: bool,
    pub final_result: String,
    pub total_steps: usize,
    pub tool_calls: usize,
    pub action_history: Vec<ActionRecord>,
}

/// The reserved action that ends a run.
pub const COMPLETE_ACTION: &'static str = "complete";

/// The result reported when the step budget runs out.
pub const NOT_COMPLETED: &'static str = "Task not completed within step limit";

/// The turn that asks a reply which is no JSON action to be reformatted.
pub const REFORMAT_REQUEST: &'static str = "Please respond with a JSON action or mark the task as complete.";

/// A code fence.
pub const FENCE: &'static str = "```";

/// The reply framed for decoding: where it holds a code fence, the span from
/// its first `{` to its last `}` (from the start where there is no `{`, to the
/// end where there is no `}`); otherwise, or where the last `}` comes before
/// the first `{`, the reply itself.
pub open spec fn json_span(s: Seq<char>) -> Seq<char> {
    if !contains_seq(s, FENCE@) {
        s
    } else {
        let start = if exists|i: int| is_first(s, '{', i) {
            choose|i: int| is_first(s, '{', i)
        } else {
            0
        };
        let end = if exists|i: int| is_last(s, '}', i) {
            (choose|i: int| is_last(s, '}', i)) + 1
        } else {
            s.len() as int
        };
        if start <= end {
            s.subrange(start, end)
        } else {
            s
        }
    }
}

/// The reply framed for decoding (see [`json_span`]).
pub fn clean_json(text: &str) -> (r: String)
    ensures
        r@ == json_span(text@),
{
    let cs = chars_of(text);
    let fence = chars_of(FENCE);
    if !contains(cs.as_slice(), fence.as_slice()) {
        return text.to_owned();
    }
    let start: usize = match find_char(cs.as_slice(), '{') {
        Some(i) => i,
        None => 0,
    };
    let end: usize = match rfind_char(cs.as_slice(), '}') {
        Some(i) => {
            assert(i < cs.len());
            i + 1
        },
        None => cs.len(),
    };
    proof {
        if exists|i: int| is_first(cs@, '{', i) {
            let c = choose|i: int| is_first(cs@, '{', i);
            assert(c == start as int);
        }
        if exists|i: int| is_last(cs@, '}', i) {
            let c = choose|i: int| is_last(cs@, '}', i);
            assert(c + 1 == end as int);
        }
    }
    if start <= end {
        slice_string(cs.as_slice(), start, end)
    } else {
        text.to_owned()
    }
}

/// No two tools share a name.
pub open spec fn names_unique(tools: Seq<AgentTool>) -> bool {
    forall|i: int, j: int|
        0 <= i < tools.len() && 0 <= j < tools.len() && i != j ==> #[trigger] tools[i].name@ != #[trigger] tools[j].name@
}

/// The tool registered under `name`, if any.
pub open spec fn tool_named(tools: Seq<AgentTool>, name: Seq<char>) -> Option<int> {
    if exists|i: int| 0 <= i < tools.len() && tools[i].name@ == name {
        Some(choose|i: int| 0 <= i < tools.len() && tools[i].name@ == name)
    } else {
        None
    }
}

/// The position of the tool named `name`.
pub fn find_tool(tools: &Vec<AgentTool>, name: &str) -> (r: Option<usize>)
    requires
        names_unique(tools@),
    ensures
        match r {
            Some(i) => i < tools.len() && tools@[i as int].name@ == name@ && tool_named(tools@, name@) == Some(i as int),
            None => tool_named(tools@, name@) is None,
        },
{
    let mut i: usize = 0;
    while i < tools.len()
        invariant
            names_unique(tools@),
            i <= tools.len(),
            forall|j: int| 0 <= j < i ==> tools@[j].name@ != name@,
        decreases tools.len() - i,
    {
        if str_eq(tools[i].name.as_str(), name) {
            proof {
                assert(0 <= i < tools.len() && tools@[i as int].name@ == name@);
                let c = choose|j: int| 0 <= j < tools.len() && tools@[j].name@ == name@;
                if c != i as int {
                    assert(tools@[c].name@ != tools@[i as int].name@);
                }
            }
            return Some(i);
        }
        i += 1;
    }
    None
}

/// The opening of the system prompt, before the list of tools.
pub const SYSTEM_HEAD: &'static str = "You are an autonomous agent that can use tools to complete tasks.\n\nAvailable tools:\n";

/// The close of the system prompt, after the list of tools.
pub const SYSTEM_TAIL: &'static str = "\n\nTo use a tool, respond with JSON in this format:\n{\n    \"thought\": \"Your reasoning about what to do next\",\n    \"action\": \"tool_name\",\n    \"args\": { \"param\": \"value\" }\n}\n\nWhen you have completed the task, respond with:\n{\n    \"thought\": \"Task is complete because...\",\n    \"action\": \"complete\",\n    \"result\": \"Your final answer\"\n}\n\nAlways think step by step and use tools to gather information before providing a final answer.";

/// How one parameter is described: `name: type (description)`.
pub open spec fn parameter_text(p: (String, ParameterDef)) -> Seq<char> {
    p.0@ + ": "@ + p.1.param_type@ + " ("@ + p.1.description@ + ")"@
}

/// How one tool is described: `- name(parameters): description`.
pub open spec fn tool_line(t: AgentTool) -> Seq<char> {
    "- "@ + t.name@ + "("@ + joined(t.parameters@.map_values(|p: (String, ParameterDef)| parameter_text(p)), ", "@)
        + "): "@ + t.description@
}

/// The system prompt: the tools, one per line, inside the protocol description.
pub open spec fn system_prompt_text(tools: Seq<AgentTool>) -> Seq<char> {
    SYSTEM_HEAD@ + joined(tools.map_values(|t: AgentTool| tool_line(t)), "\n"@) + SYSTEM_TAIL@
}

fn parameter_line(p: &(String, ParameterDef)) -> (r: String)
    ensures
        r@ == parameter_text(*p),
{
    let mut r = p.0.clone();
    r.append(": ");
    r.append(p.1.param_type.as_str());
    r.append(" (");
    r.append(p.1.description.as_str());
    r.append(")");
    r
}

fn describe_tool(t: &AgentTool) -> (r: String)
    ensures
        r@ == tool_line(*t),
{
    let mut params: Vec<String> = Vec::new();
    let mut k: usize = 0;
    while k < t.parameters.len()
        invariant
            k <= t.parameters.len(),
            params.len() == k,
            forall|j: int| 0 <= j < k ==> #[trigger] params@[j]@ == parameter_text(t.parameters@[j]),
        decreases t.parameters.len() - k,
    {
        params.push(parameter_line(&t.parameters[k]));
        k += 1;
    }
    let ghost texts = t.parameters@.map_values(|p: (String, ParameterDef)| parameter_text(p));
    assert(views(params@) =~= texts);
    let mut r = String::from_str("- ");
    r.append(t.name.as_str());
    r.append("(");
    let joined_params = join(&params, ", ");
    r.append(joined_params.as_str());
    r.append("): ");
    r.append(t.description.as_str());
    r
}

/// The system prompt for these tools (see [`system_prompt_text`]).
pub fn build_system_prompt(tools: &Vec<AgentTool>) -> (r: String)
    ensures
        r@ == system_prompt_text(tools@),
{
    let mut lines: Vec<String> = Vec::new();
    let mut k: usize = 0;
    while k < tools.len()
        invariant
            k <= tools.len(),
            lines.len() == k,
            forall|j: int| 0 <= j < k ==> #[trigger] lines@[j]@ == tool_line(tools@[j]),
        decreases tools.len() - k,
    {
        lines.push(describe_tool(&tools[k]));
        k += 1;
    }
    assert(views(lines@) =~= tools@.map_values(|t: AgentTool| tool_line(t)));
    let mut r = String::from_str(SYSTEM_HEAD);
    let body = join(&lines, "\n");
    r.append(body.as_str());
    r.append(SYSTEM_TAIL);
    r
}

/// The agent, its registered tools, and the state of its current run.
pub struct AutonomousAgent {
    pub model: String,
    pub tools: Vec<AgentTool>,
    pub state: AgentState,
    pub conversation_history: Vec<Message>,
}

/// A fresh run state.
pub open spec fn is_fresh(s: AgentState) -> bool {
    &&& s.total_steps == 0
    &&& s.tool_calls == 0
    &&& s.action_history@.len() == 0
    &&& !s.is_complete
    &&& s.final_result is None
}

impl AgentState {
    /// A fresh run state.
    pub fn new() -> (r: AgentState)
        ensures
            is_fresh(r),
    {
        AgentState {
            total_steps: 0,
            tool_calls: 0,
            action_history: Vec::new(),
            is_complete: false,
            final_result: None,
        }
    }
}

impl Default for AgentState {
    fn default() -> (r: AgentState)
        ensures
            is_fresh(r),
    {
        AgentState::new()
    }
}

/// The decoded reply names a registered tool other than the reserved action.
pub open spec fn calls_tool(tools: Seq<AgentTool>, action: Option<AgentAction>) -> bool {
    &&& action is Some
    &&& action->0.action is Some
    &&& action->0.action->0@ != COMPLETE_ACTION@
    &&& tool_named(tools, action->0.action->0@) is Some
}

/// `m` is a turn of `role` holding `text`.
pub open spec fn is_turn(m: Message, role: Role, text: Seq<char>) -> bool {
    m.role == role && m.content@ == text
}

/// `r` records, at `step`, the reasoning `text`.
pub open spec fn is_thought_record(r: ActionRecord, step: usize, kind: ActionKind, text: Seq<char>) -> bool {
    &&& r.step == step
    &&& r.action_type == kind
    &&& r.tool_name is None
    &&& r.tool_args is None
    &&& r.tool_result is None
    &&& r.thought is Some
    &&& r.thought->0@ == text
}

/// `r` records, at `step`, a call of tool `name` with `args` that gave `result`.
pub open spec fn is_tool_record(
    r: ActionRecord,
    step: usize,
    name: Seq<char>,
    args: serde_json::Value,
    result: Seq<char>,
) -> bool {
    &&& r.step == step
    &&& r.action_type == ActionKind::ToolCall
    &&& r.tool_name is Some
    &&& r.tool_name->0@ == name
    &&& r.tool_args == Some(args)
    &&& r.tool_result is Some
    &&& r.tool_result->0@ == result
    &&& r.thought is None
}

/// `after` is `before` with `n` entries added at its end.
pub open spec fn extends<T>(before: Seq<T>, after: Seq<T>, n: int) -> bool {
    after.len() == before.len() + n && after.take(before.len() as int) == before
}

/// The turn that tells the completion service an action names no tool.
pub open spec fn unknown_action_text(name: Seq<char>, tools: Seq<AgentTool>) -> Seq<char> {
    "Unknown action: "@ + name + ". Available tools: "@ + joined(
        tools.map_values(|t: AgentTool| t.name@),
        ", "@,
    )
}

/// What handling one reply does to the run, given the decoded reply and,
/// where the reply asks for a registered tool, what the tool returned.
pub open spec fn responded(
    before: AutonomousAgent,
    after: AutonomousAgent,
    response: Seq<char>,
    action: Option<AgentAction>,
    tool_result: Option<String>,
) -> bool {
    let h0 = before.state.action_history@;
    let h1 = after.state.action_history@;
    let c0 = before.conversation_history@;
    let c1 = after.conversation_history@;
    let step = before.state.total_steps;
    match action {
        None => {
            &&& extends(h0, h1, 1)
            &&& is_thought_record(h1.last(), step, ActionKind::TextResponse, prefix(response, 200))
            &&& extends(c0, c1, 2)
            &&& is_turn(c1[c0.len() as int], Role::Assistant, response)
            &&& is_turn(c1[c0.len() as int + 1], Role::User, REFORMAT_REQUEST@)
            &&& after.state.tool_calls == before.state.tool_calls
            &&& after.state.is_complete == before.state.is_complete
            &&& after.state.final_result == before.state.final_result
        },
        Some(a) => {
            let nt: int = if a.thought is Some { 1 } else { 0 };
            &&& a.thought is Some ==> is_thought_record(h1[h0.len() as int], step, ActionKind::Thought, a.thought->0@)
            &&& if a.action is Some && a.action->0@ == COMPLETE_ACTION@ {
                &&& extends(h0, h1, nt)
                &&& c1 == c0
                &&& after.state.tool_calls == before.state.tool_calls
                &&& after.state.is_complete
                &&& after.state.final_result is Some
                &&& after.state.final_result->0@ == if a.result is Some { a.result->0@ } else { response }
            } else if a.action is Some && tool_named(before.tools@, a.action->0@) is Some {
                &&& extends(h0, h1, nt + 1)
                &&& is_tool_record(h1.last(), step, a.action->0@, a.args, tool_result->0@)
                &&& extends(c0, c1, 2)
                &&& is_turn(c1[c0.len() as int], Role::Assistant, response)
                &&& is_turn(c1[c0.len() as int + 1], Role::User, "Tool result: "@ + tool_result->0@)
                &&& after.state.tool_calls == before.state.tool_calls + 1
                &&& after.state.is_complete == before.state.is_complete
                &&& after.state.final_result == before.state.final_result
            } else if a.action is Some {
                &&& extends(h0, h1, nt)
                &&& extends(c0, c1, 2)
                &&& is_turn(c1[c0.len() as int], Role::Assistant, response)
                &&& is_turn(c1[c0.len() as int + 1], Role::User, unknown_action_text(a.action->0@, before.tools@))
                &&& after.state.tool_calls == before.state.tool_calls
                &&& after.state.is_complete == before.state.is_complete
                &&& after.state.final_result == before.state.final_result
            } else {
                &&& extends(h0, h1, nt)
                &&& c1 == c0
                &&& after.state.tool_calls == before.state.tool_calls
                &&& after.state.is_complete == before.state.is_complete
                &&& after.state.final_result == before.state.final_result
            }
        },
    }
}

/// The names of the tools.
fn tool_names(tools: &Vec<AgentTool>) -> (r: Vec<String>)
    ensures
        views(r@) == tools@.map_values(|t: AgentTool| t.name@),
{
    let mut r: Vec<String> = Vec::new();
    let mut k: usize = 0;
    while k < tools.len()
        invariant
            k <= tools.len(),
            r.len() == k,
            forall|j: int| 0 <= j < k ==> #[trigger] r@[j]@ == tools@[j].name@,
        decreases tools.len() - k,
    {
        r.push(tools[k].name.clone());
        k += 1;
    }
    assert(views(r@) =~= tools@.map_values(|t: AgentTool| t.name@));
    r
}

impl AutonomousAgent {
    /// An agent with no tools, using `model`.
    pub fn new(model: String) -> (r: AutonomousAgent)
        ensures
            r.model == model,
            r.tools@.len() == 0,
            is_fresh(r.state),
            r.conversation_history@.len() == 0,
    {
        AutonomousAgent {
            model,
            tools: Vec::new(),
            state: AgentState::new(),
            conversation_history: Vec::new(),
        }
    }

    /// The agent's tools are registered under distinct names.
    pub open spec fn well_formed(&self) -> bool {
        names_unique(self.tools@)
    }

    /// Registers `tool`, replacing a tool registered under the same name.
    pub fn register_tool(&mut self, tool: AgentTool)
        requires
            old(self).well_formed(),
        ensures
            final(self).well_formed(),
            final(self).model == old(self).model,
            match tool_named(old(self).tools@, tool.name@) {
                Some(i) => final(self).tools@ == old(self).tools@.update(i, tool),
                None => final(self).tools@ == old(self).tools@.push(tool),
            },
    {
        match find_tool(&self.tools, tool.name.as_str()) {
            Some(i) => {
                let ghost before = self.tools@;
                self.tools[i] = tool;
                proof {
                    assert forall|a: int, b: int|
                        0 <= a < self.tools@.len() && 0 <= b < self.tools@.len() && a != b
                        implies #[trigger] self.tools@[a].name@ != #[trigger] self.tools@[b].name@ by {
                        if a != i && b != i {
                            assert(before[a].name@ != before[b].name@);
                        }
                    }
                }
            },
            None => {
                let ghost before = self.tools@;
                self.tools.push(tool);
                proof {
                    assert forall|a: int, b: int|
                        0 <= a < self.tools@.len() && 0 <= b < self.tools@.len() && a != b
                        implies #[trigger] self.tools@[a].name@ != #[trigger] self.tools@[b].name@ by {
                        if a < before.len() && b < before.len() {
                            assert(before[a].name@ != before[b].name@);
                        } else if a < before.len() {
                            assert(before[a].name@ != self.tools@[b].name@);
                        } else {
                            assert(before[b].name@ != self.tools@[a].name@);
                        }
                    }
                }
            },
        }
    }

    /// The state of the current run.
    pub fn state(&self) -> (r: &AgentState)
        ensures
            *r == self.state,
    {
        &self.state
    }

    /// Starts a run on `task`: a fresh state and a conversation holding only
    /// the task.
    pub fn start(&mut self, task: &str)
        ensures
            final(self).model == old(self).model,
            final(self).tools == old(self).tools,
            is_fresh(final(self).state),
            final(self).conversation_history@.len() == 1,
            is_turn(final(self).conversation_history@[0], Role::User, "Task: "@ + task@),
    {
        self.state = AgentState::new();
        let mut conversation: Vec<Message> = Vec::new();
        conversation.push(Message { role: Role::User, content: concat("Task: ", task) });
        self.conversation_history = conversation;
    }

    /// Opens the next turn when the run is neither complete nor out of
    /// budget, counting it as a step; says whether a turn was opened.
    pub fn next_turn(&mut self, max_steps: usize) -> (r: bool)
        ensures
            r == (old(self).state.total_steps < max_steps && !old(self).state.is_complete),
            final(self).state.total_steps == if r {
                old(self).state.total_steps + 1
            } else {
                old(self).state.total_steps as int
            },
            final(self).state.tool_calls == old(self).state.tool_calls,
            final(self).state.action_history == old(self).state.action_history,
            final(self).state.is_complete == old(self).state.is_complete,
            final(self).state.final_result == old(self).state.final_result,
            final(self).conversation_history == old(self).conversation_history,
            final(self).tools == old(self).tools,
            final(self).model == old(self).model,
    {
        if self.state.total_steps < max_steps && !self.state.is_complete {
            self.state.total_steps = self.state.total_steps + 1;
            true
        } else {
            false
        }
    }

    /// The request for the next action: the whole conversation under the
    /// system prompt that lists the tools.
    pub fn request(&self) -> (r: CompletionRequest)
        ensures
            r.messages@.len() == self.conversation_history@.len(),
            forall|k: int| 0 <= k < r.messages@.len() ==> is_turn(#[trigger] r.messages@[k],
                self.conversation_history@[k].role, self.conversation_history@[k].content@),
            r.model@ == self.model@,
            r.max_tokens == 2048,
            r.system is Some,
            r.system->0@ == system_prompt_text(self.tools@),
            r.temperature_milli is None,
    {
        let mut messages: Vec<Message> = Vec::new();
        let mut k: usize = 0;
        while k < self.conversation_history.len()
            invariant
                k <= self.conversation_history.len(),
                messages.len() == k,
                forall|j: int| 0 <= j < k ==> is_turn(#[trigger] messages@[j],
                    self.conversation_history@[j].role, self.conversation_history@[j].content@),
            decreases self.conversation_history.len() - k,
        {
            let m = &self.conversation_history[k];
            messages.push(Message { role: m.role, content: m.content.clone() });
            k += 1;
        }
        CompletionRequest {
            messages,
            model: self.model.clone(),
            max_tokens: 2048,
            system: Some(build_system_prompt(&self.tools)),
            temperature_milli: None,
        }
    }

    /// The registered tool that a decoded reply asks for, if any.
    pub fn tool_to_call(&self, action: &Option<AgentAction>) -> (r: Option<usize>)
        requires
            self.well_formed(),
        ensures
            r is Some <==> calls_tool(self.tools@, *action),
            r is Some ==> tool_named(self.tools@, action->0.action->0@) == Some(r->0 as int),
    {
        match action {
            Some(a) => match &a.action {
                Some(name) => {
                    if str_eq(name.as_str(), COMPLETE_ACTION) {
                        None
                    } else {
                        find_tool(&self.tools, name.as_str())
                    }
                },
                None => None,
            },
            None => None,
        }
    }

    /// Handles one reply of the completion service (see [`responded`]).
    /// `action` is the reply decoded from the action protocol, `None` where it
    /// could not be decoded; `tool_result` is what the requested tool returned,
    /// with a failure written as text.
    pub fn process_response(&mut self, response: &str, action: Option<AgentAction>, tool_result: Option<String>)
        requires
            old(self).well_formed(),
            old(self).state.tool_calls < usize::MAX,
            tool_result is Some <==> calls_tool(old(self).tools@, action),
        ensures
            final(self).well_formed(),
            final(self).tools == old(self).tools,
            final(self).model == old(self).model,
            final(self).state.total_steps == old(self).state.total_steps,
            responded(*old(self), *final(self), response@, action, tool_result),
    {
        let step = self.state.total_steps;
        let ghost h0 = self.state.action_history@;
        let ghost c0 = self.conversation_history@;
        match action {
            None => {
                let thought = prefix_of(response, 200);
                self.conversation_history.push(Message { role: Role::Assistant, content: response.to_owned() });
                self.conversation_history.push(
                    Message { role: Role::User, content: String::from_str(REFORMAT_REQUEST) },
                );
                self.state.action_history.push(ActionRecord {
                    step,
                    action_type: ActionKind::TextResponse,
                    tool_name: None,
                    tool_args: None,
                    tool_result: None,
                    thought: Some(thought),
                });
                assert(self.state.action_history@.take(h0.len() as int) =~= h0);
                assert(self.conversation_history@.take(c0.len() as int) =~= c0);
            },
            Some(a) => {
                let ghost a0 = a;
                let AgentAction { thought, action: act, args, result } = a;
                match thought {
                    Some(t) => {
                        self.state.action_history.push(ActionRecord {
                            step,
                            action_type: ActionKind::Thought,
                            tool_name: None,
                            tool_args: None,
                            tool_result: None,
                            thought: Some(t),
                        });
                    },
                    None => {},
                }
                let ghost h_mid = self.state.action_history@;
                assert(h_mid.take(h0.len() as int) =~= h0);
                match act {
                    Some(name) => {
                        if str_eq(name.as_str(), COMPLETE_ACTION) {
                            self.state.is_complete = true;
                            self.state.final_result = match result {
                                Some(r) => Some(r),
                                None => Some(response.to_owned()),
                            };
                        } else {
                            match find_tool(&self.tools, name.as_str()) {
                                Some(_) => {
                                    let out = match tool_result {
                                        Some(r) => r,
                                        None => String::new(),
                                    };
                                    self.state.tool_calls = self.state.tool_calls + 1;
                                    let turn = concat("Tool result: ", out.as_str());
                                    self.state.action_history.push(ActionRecord {
                                        step,
                                        action_type: ActionKind::ToolCall,
                                        tool_name: Some(name),
                                        tool_args: Some(args),
                                        tool_result: Some(out),
                                        thought: None,
                                    });
                                    self.conversation_history.push(
                                        Message { role: Role::Assistant, content: response.to_owned() },
                                    );
                                    self.conversation_history.push(Message { role: Role::User, content: turn });
                                    assert(self.state.action_history@.take(h0.len() as int) =~= h0);
                                    proof {
                                        if h_mid.len() > h0.len() {
                                            assert(self.state.action_history@[h0.len() as int] == h_mid[h0.len() as int]);
                                        }
                                    }
                                    assert(self.conversation_history@.take(c0.len() as int) =~= c0);
                                },
                                None => {
                                    let names = tool_names(&self.tools);
                                    let listed = join(&names, ", ");
                                    let mut turn = concat("Unknown action: ", name.as_str());
                                    turn.append(". Available tools: ");
                                    turn.append(listed.as_str());
                                    self.conversation_history.push(
                                        Message { role: Role::Assistant, content: response.to_owned() },
                                    );
                                    self.conversation_history.push(Message { role: Role::User, content: turn });
                                    assert(self.conversation_history@.take(c0.len() as int) =~= c0);
                                },
                            }
                        }
                    },
                    None => {},
                }
            },
        }
    }

    /// Ends the run: whether it completed, its result (or a note that the step
    /// budget ran out first), its counters and a copy of its history.
    pub fn finish(&self) -> (r: AgentResult)
        ensures
            r.success == self.state.is_complete,
            r.final_result@ == match self.state.final_result {
                Some(f) => f@,
                None => NOT_COMPLETED@,
            },
            r.total_steps == self.state.total_steps,
            r.tool_calls == self.state.tool_calls,
            r.action_history@ == self.state.action_history@,
    {
        let final_result = match &self.state.final_result {
            Some(f) => f.clone(),
            None => String::from_str(NOT_COMPLETED),
        };
        let mut history: Vec<ActionRecord> = Vec::new();
        let mut k: usize = 0;
        while k < self.state.action_history.len()
            invariant
                k <= self.state.action_history.len(),
                history@ == self.state.action_history@.take(k as int),
            decreases self.state.action_history.len() - k,
        {
            history.push(copy_record(&self.state.action_history[k]));
            assert(history@ =~= self.state.action_history@.take(k + 1));
            k += 1;
        }
        assert(history@ =~= self.state.action_history@);
        AgentResult {
            success: self.state.is_complete,
            final_result,
            total_steps: self.state.total_steps,
            tool_calls: self.state.tool_calls,
            action_history: history,
        }
    }
}

fn copy_option_string(s: &Option<String>) -> (r: Option<String>)
    ensures
        r == *s,
{
    match s {
        Some(t) => Some(t.clone()),
        None => None,
    }
}

/// A copy of a history entry.
pub fn copy_record(r: &ActionRecord) -> (c: ActionRecord)
    ensures
        c == *r,
{
    ActionRecord {
        step: r.step,
        action_type: r.action_type,
        tool_name: copy_option_string(&r.tool_name),
        tool_args: match &r.tool_args {
            Some(v) => Some(v.clone()),
            None => None,
        },
        tool_result: copy_option_string(&r.tool_result),
        thought: copy_option_string(&r.thought),
    }
}


/// The agent after [`AutonomousAgent::next_turn`] opened a step.
pub open spec fn opened(a: AutonomousAgent) -> AutonomousAgent {
    AutonomousAgent { state: AgentState { total_steps: (a.state.total_steps + 1) as usize, ..a.state }, ..a }
}

/// The decoded reply is the reserved action that ends a run.
pub open spec fn completes(action: Option<AgentAction>) -> bool {
    action is Some && action->0.action is Some && action->0.action->0@ == COMPLETE_ACTION@
}

/// From `a` to `b` the run took one step within the budget, and the reply
/// of that step did not complete the task.
pub open spec fn step_without_completion(a: AutonomousAgent, b: AutonomousAgent, max_steps: usize) -> bool {
    &&& a.state.total_steps < max_steps
    &&& !a.state.is_complete
    &&& b.state.total_steps == a.state.total_steps + 1
    &&& exists|response: Seq<char>, action: Option<AgentAction>, tool_result: Option<String>|
        !completes(action) && #[trigger] responded(opened(a), b, response, action, tool_result)
}

proof fn lemma_steps_so_far(states: Seq<AutonomousAgent>, max_steps: usize, n: int)
    requires
        states.len() == max_steps + 1,
        0 <= n <= max_steps,
        is_fresh(states[0].state),
        forall|i: int| 0 <= i < max_steps ==> #[trigger] step_without_completion(states[i], states[i + 1], max_steps),
    ensures
        states[n].state.total_steps == n,
        !states[n].state.is_complete,
        states[n].state.final_result is None,
    decreases n,
{
    if n > 0 {
        lemma_steps_so_far(states, max_steps, n - 1);
        assert(step_without_completion(states[n - 1], states[(n - 1) + 1], max_steps));
        let (response, action, tool_result) = choose|response: Seq<char>, action: Option<AgentAction>, tool_result: Option<String>|
            !completes(action) && #[trigger] responded(opened(states[n - 1]), states[n], response, action, tool_result);
        assert(responded(opened(states[n - 1]), states[n], response, action, tool_result));
    }
}

/// A run whose replies never complete the task ends when the budget of
/// `max_steps` steps is spent, one completion call per step: then no further
/// step opens, the run is not complete, and it holds no result, so it is
/// reported as not completed rather than failed.
pub proof fn lemma_budget_runs_out(states: Seq<AutonomousAgent>, max_steps: usize)
    requires
        states.len() == max_steps + 1,
        is_fresh(states[0].state),
        forall|i: int| 0 <= i < max_steps ==> #[trigger] step_without_completion(states[i], states[i + 1], max_steps),
    ensures
        states.last().state.total_steps == max_steps,
        !(states.last().state.total_steps < max_steps),
        !states.last().state.is_complete,
        states.last().state.final_result is None,
{
    lemma_steps_so_far(states, max_steps, max_steps as int);
}

} // verus!
