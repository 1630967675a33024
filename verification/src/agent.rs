//! The decisions of an agent that alternates model calls and tool calls.
//!
//! The model call and the tool calls themselves are made by the caller; this
//! module decides what a model response leads to, turns the tools' outcomes
//! into the results handed back to the model, and counts the rounds of a run.
use crate::error::Error;
use crate::llm::FinishReason;
use crate::splitters::recursive_json_splitter::JsonValue;
use crate::text::{chars_of, extend_chars, string_from_vec};
use vstd::prelude::*;

verus! {

/// What a model response leads to.
#[derive(Debug)]
pub enum StepDecision {
    /// The response is final.
    Finish,
    /// The response is answered with a user message instead of tool results.
    Reply(String),
    /// The response's function calls are to be run.
    RunTools,
}

/// The message that answers a response that called a tool unexpectedly.
pub open spec fn unexpected_tool_message() -> Seq<char> {
    "Agent attempted to call a tool unexpectedly."@
}

/// The message that answers a response with a malformed function call.
pub open spec fn malformed_call_message() -> Seq<char> {
    "Agent made a malformed function call."@
}

/// Decides what a model response leads to: an unexpected or malformed tool
/// call is answered with a message; otherwise a response without function
/// calls is final, and one with function calls has them run.
pub fn decide_step(finish_reason: &Option<FinishReason>, has_function_calls: bool) -> (res:
    StepDecision)
    ensures
        finish_reason matches Some(FinishReason::UnexpectedToolCall) ==> (res matches StepDecision::Reply(m)
            && m@ == unexpected_tool_message()),
        finish_reason matches Some(FinishReason::MalformedFunctionCall) ==> (res matches StepDecision::Reply(m)
            && m@ == malformed_call_message()),
        !(finish_reason matches Some(FinishReason::UnexpectedToolCall)) && !(finish_reason matches Some(
            FinishReason::MalformedFunctionCall,
        )) ==> if has_function_calls {
            res is RunTools
        } else {
            res is Finish
        },
{
    match finish_reason {
        Some(FinishReason::UnexpectedToolCall) => StepDecision::Reply(
            string_from_vec(chars_of("Agent attempted to call a tool unexpectedly.")),
        ),
        Some(FinishReason::MalformedFunctionCall) => StepDecision::Reply(
            string_from_vec(chars_of("Agent made a malformed function call.")),
        ),
        _ => if has_function_calls {
            StepDecision::RunTools
        } else {
            StepDecision::Finish
        },
    }
}

/// How running one tool call ended.
pub enum ToolOutcome {
    /// The tool returned this value.
    Done(JsonValue),
    /// The tool, or finding it, failed; the failure as text.
    Failed(String),
    /// The task running the tool did not complete; the reason as text.
    Aborted(String),
}

/// The result handed back to the model for one tool call.
pub struct ToolResult {
    pub name: String,
    pub results: JsonValue,
}

/// The text that an aborted task's reason is reported after.
pub open spec fn aborted_prefix() -> Seq<char> {
    "Internal Server Errror: Task Join Error: "@
}

/// `v` is `{"error": message}`.
pub open spec fn is_error_object(v: JsonValue, message: Seq<char>) -> bool {
    &&& v matches JsonValue::Object(entries)
    &&& entries@.len() == 1
    &&& entries@[0].0@ == "error"@
    &&& entries@[0].1 matches JsonValue::Str(m)
    &&& m@ == message
}

/// `v` is what outcome `o` reports: the tool's value, or an object whose
/// `error` field gives the failure.
pub open spec fn reports(v: JsonValue, o: ToolOutcome) -> bool {
    match o {
        ToolOutcome::Done(x) => v == x,
        ToolOutcome::Failed(m) => is_error_object(v, m@),
        ToolOutcome::Aborted(m) => is_error_object(v, aborted_prefix() + m@),
    }
}

/// The results of the calls named `names`, whose outcomes are `outcomes`,
/// in the order of the calls.
pub fn tool_results(names: &Vec<String>, outcomes: Vec<ToolOutcome>) -> (res: Vec<ToolResult>)
    requires
        names.len() == outcomes.len(),
    ensures
        res.len() == names.len(),
        forall|i: int|
            0 <= i < res.len() ==> #[trigger] res@[i].name@ == names@[i]@ && reports(
                res@[i].results,
                outcomes@[i],
            ),
{
    let mut res: Vec<ToolResult> = Vec::new();
    let mut rest = outcomes;
    let ghost all = rest@;
    let mut k: usize = 0;
    while k < names.len()
        invariant
            k <= names.len() == all.len(),
            rest@ == all.subrange(k as int, all.len() as int),
            res.len() == k,
            forall|i: int|
                0 <= i < k ==> #[trigger] res@[i].name@ == names@[i]@ && reports(
                    res@[i].results,
                    all[i],
                ),
        decreases names.len() - k,
    {
        let o = rest.remove(0);
        assert(o == all[k as int]);
        assert(rest@ =~= all.subrange(k + 1, all.len() as int));
        let results = match o {
            ToolOutcome::Done(v) => v,
            ToolOutcome::Failed(m) => error_value(m),
            ToolOutcome::Aborted(m) => {
                let mut cs = chars_of("Internal Server Errror: Task Join Error: ");
                let mc = chars_of(m.as_str());
                extend_chars(&mut cs, mc.as_slice());
                error_value(string_from_vec(cs))
            },
        };
        let name = string_from_vec(chars_of(names[k].as_str()));
        assert(reports(results, all[k as int]));
        let ghost before = res@;
        res.push(ToolResult { name, results });
        assert forall|i: int| 0 <= i < k + 1 implies #[trigger] res@[i].name@ == names@[i]@ && reports(
            res@[i].results,
            all[i],
        ) by {
            if i < k {
                assert(res@[i] == before[i]);
            }
        }
        k += 1;
    }
    res
}

fn error_value(message: String) -> (res: JsonValue)
    ensures
        is_error_object(res, message@),
{
    let key = string_from_vec(chars_of("error"));
    let mut entries: Vec<(String, JsonValue)> = Vec::new();
    entries.push((key, JsonValue::Str(message)));
    JsonValue::Object(entries)
}

/// What a model step produced: a final response, or a message (tool results
/// or a reply) to send back.
pub enum AgentStep<T> {
    Finished(T),
    ToolReturn(T),
}

/// What a run does after a step.
pub enum RunAction<T> {
    /// Return this response.
    Return(T),
    /// Record this message in the history and step again with it.
    Continue(T),
}

/// The round count of a run that takes at most `max_depth` steps.
pub struct AgentRun {
    pub max_depth: i32,
    pub steps: u32,
}

impl AgentRun {
    /// A run that has taken no step.
    pub fn new(max_depth: i32) -> (res: Self)
        ensures
            res.max_depth == max_depth,
            res.steps == 0,
    {
        AgentRun { max_depth, steps: 0 }
    }

    /// Whether the run may take another step.
    pub fn may_step(&self) -> (res: bool)
        ensures
            res == (self.steps < self.max_depth),
    {
        (self.steps as i64) < (self.max_depth as i64)
    }

    /// Counts a step and says what it leads to.
    pub fn after_step<T>(&mut self, step: AgentStep<T>) -> (res: RunAction<T>)
        requires
            old(self).steps < old(self).max_depth,
        ensures
            final(self).max_depth == old(self).max_depth,
            final(self).steps == old(self).steps + 1,
            match step {
                AgentStep::Finished(x) => res == RunAction::Return(x),
                AgentStep::ToolReturn(x) => res == RunAction::Continue(x),
            },
    {
        self.steps = self.steps + 1;
        match step {
            AgentStep::Finished(x) => RunAction::Return(x),
            AgentStep::ToolReturn(x) => RunAction::Continue(x),
        }
    }

    /// The error of a run that took all its steps without a final response.
    pub fn exhausted_error() -> (res: Error)
        ensures
            res matches Error::Agent { index, name, source } && index == 0 && name@.len() == 0
                && (*source matches Error::Internal(m) && m@ == depth_message()),
    {
        Error::Agent {
            index: 0,
            name: String::new(),
            source: Box::new(Error::Internal(string_from_vec(chars_of(
                "Agent reached maximum depth without finishing",
            )))),
        }
    }
}

/// The reason a run gives up.
pub open spec fn depth_message() -> Seq<char> {
    "Agent reached maximum depth without finishing"@
}

} // verus!
