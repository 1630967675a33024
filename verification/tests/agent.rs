use rustychain::agent::{
    decide_step, tool_results, AgentRun, AgentStep, RunAction, StepDecision, ToolOutcome,
};
use rustychain::error::Error;
use rustychain::llm::FinishReason;
use rustychain::splitters::recursive_json_splitter::JsonValue;

#[test]
fn responses_lead_to_replies_results_or_tool_runs() {
    match decide_step(&Some(FinishReason::UnexpectedToolCall), true) {
        StepDecision::Reply(m) => assert_eq!(m, "Agent attempted to call a tool unexpectedly."),
        other => panic!("unexpected {:?}", other),
    }
    match decide_step(&Some(FinishReason::MalformedFunctionCall), false) {
        StepDecision::Reply(m) => assert_eq!(m, "Agent made a malformed function call."),
        other => panic!("unexpected {:?}", other),
    }
    assert!(matches!(decide_step(&Some(FinishReason::MaxTokens), false), StepDecision::Finish));
    assert!(matches!(decide_step(&None, true), StepDecision::RunTools));
    assert!(matches!(decide_step(&Some(FinishReason::Stop), true), StepDecision::RunTools));
}

#[test]
fn tool_results_keep_the_order_of_the_calls() {
    let names = vec!["a".to_string(), "b".to_string(), "c".to_string()];
    let outcomes = vec![
        ToolOutcome::Done(JsonValue::Bool(true)),
        ToolOutcome::Failed("NotFound(\"b\")".to_string()),
        ToolOutcome::Aborted("cancelled".to_string()),
    ];
    let results = tool_results(&names, outcomes);
    assert_eq!(results.len(), 3);
    assert_eq!(results[0].name, "a");
    assert!(matches!(results[0].results, JsonValue::Bool(true)));
    match &results[1].results {
        JsonValue::Object(entries) => {
            assert_eq!(entries.len(), 1);
            assert_eq!(entries[0].0, "error");
            assert!(matches!(&entries[0].1, JsonValue::Str(m) if m == "NotFound(\"b\")"));
        }
        other => panic!("unexpected {:?}", other),
    }
    match &results[2].results {
        JsonValue::Object(entries) => assert!(matches!(
            &entries[0].1,
            JsonValue::Str(m) if m == "Internal Server Errror: Task Join Error: cancelled"
        )),
        other => panic!("unexpected {:?}", other),
    }
}

#[test]
fn a_run_counts_its_steps() {
    let mut run = AgentRun::new(2);
    assert!(run.may_step());
    assert!(matches!(run.after_step(AgentStep::ToolReturn(1)), RunAction::Continue(1)));
    assert!(run.may_step());
    assert!(matches!(run.after_step(AgentStep::Finished(2)), RunAction::Return(2)));
    assert!(!run.may_step());
    assert!(!AgentRun::new(0).may_step());
    assert!(!AgentRun::new(-3).may_step());
    match AgentRun::exhausted_error() {
        Error::Agent { index, name, source } => {
            assert_eq!(index, 0);
            assert_eq!(name, "");
            assert!(matches!(*source, Error::Internal(ref m) if m == "Agent reached maximum depth without finishing"));
        }
        other => panic!("unexpected {:?}", other),
    }
}
