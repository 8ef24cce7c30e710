use std::sync::Arc;

use opencode_rust::agent::registry::{parse_agents_json, AgentRegistry};
use opencode_rust::agent::session::{Session, SessionId};
use opencode_rust::agent::spec::ModelHandle;
use opencode_rust::session::prompt_builder::ProjectContext;
use opencode_rust::session::runtime::{
    AgentEvent, BackendReply, CompletionResponse, LanguageModel, LocalModel, RoleCall,
    SessionEvent, SessionRequest, SessionResult, SessionRuntime, SessionState, SubagentInvocation,
};
use opencode_rust::tool::base::Tool;
use opencode_rust::tool::echo::EchoTool;
use opencode_rust::util::error::SessionError;
use opencode_rust::util::time::Duration;

fn runtime_with(overrides: &str) -> SessionRuntime {
    let context = Arc::new(ProjectContext::gather("/project", &None, &[]));
    let mut registry = AgentRegistry::new();
    let definitions = parse_agents_json(overrides).expect("valid overrides");
    registry.apply_runtime_map(&definitions);
    registry.ensure_primary();
    let tools: Vec<Arc<dyn Tool>> = vec![Arc::new(EchoTool)];
    SessionRuntime::new(context, Arc::new(registry), tools, ModelHandle::new("baseline/model"))
}

fn answer(call: RoleCall) -> (usize, BackendReply) {
    let slot = call.slot;
    let reply = match LocalModel::default().complete(call.request) {
        Ok(response) => BackendReply::Completed(response),
        Err(cause) => BackendReply::Failed(cause),
    };
    (slot, reply)
}

fn finished(state: SessionState) -> Result<SessionResult, SessionError> {
    match state {
        SessionState::Finished(end) => end,
        _ => panic!("the run has not ended"),
    }
}

#[test]
fn executes_subagents_and_emits_events() {
    let runtime = runtime_with(
        r#"{
        "primary": {
            "promptSections": ["Coordinate work"],
            "budgets": {"maxTokens": 128}
        },
        "builder": {
            "prompt": "Synthesize build output",
            "mode": "subagent"
        }
    }"#,
    );
    let request = SessionRequest {
        agent: Some("primary".to_string()),
        objective: "Coordinate build".to_string(),
        subtasks: vec![
            SubagentInvocation::new("builder", "Compile artifacts"),
            SubagentInvocation::new("builder", "Write report"),
        ],
    };

    let mut captured: Vec<AgentEvent> = Vec::new();
    let (state, call) = runtime.start(request, &Session::new()).expect("primary is known");
    captured.push(call.started.clone());
    let (_, reply) = answer(call);
    let moved = runtime.step(state, SessionEvent::PrimaryReplied(reply));
    captured.extend(moved.events);
    let mut state = moved.state;
    assert_eq!(moved.calls.len(), 2);
    for call in moved.calls.into_iter().rev() {
        captured.push(call.started.clone());
        let (slot, reply) = answer(call);
        let next = runtime.step(state, SessionEvent::SubtaskReplied { slot, reply });
        captured.extend(next.events);
        assert!(next.calls.is_empty());
        state = next.state;
    }
    let result = finished(state).expect("the run succeeds");

    assert_eq!(result.subtasks.len(), 2);
    assert!(captured
        .iter()
        .any(|event| matches!(event, AgentEvent::Started { agent, .. } if agent == "builder")));
    assert!(captured
        .iter()
        .any(|event| matches!(event, AgentEvent::Completed { agent, .. } if agent == "primary")));

    assert_eq!(result.primary.agent, "primary");
    assert_eq!(result.primary.objective, "Coordinate build");
    assert_eq!(result.primary.model.id(), "baseline/model");
    assert_eq!(
        result.primary.summary,
        "primary completed objective: Coordinate build (limit 128 tokens)"
    );
    assert!(result.primary.raw_output.contains("<ROLE>\nCoordinate work\n</ROLE>"));
    assert_eq!(result.subtasks[0].objective, "Write report");
    assert_eq!(result.subtasks[1].objective, "Compile artifacts");
    assert_eq!(result.subtasks[0].summary, "builder completed objective: Write report");
    assert_ne!(result.subtasks[0].session_id, result.subtasks[1].session_id);
    assert_eq!(captured.len(), 6);
}

#[test]
fn role_past_its_deadline_fails_the_run() {
    let runtime = runtime_with(r#"{"slow": {"budgets": {"wallClockMs": 5}, "mode": "subagent"}}"#);
    let mut request = SessionRequest::new("Lead");
    request.subtasks = vec![
        SubagentInvocation::new("primary", "Quick"),
        SubagentInvocation::new("slow", "Sleep"),
    ];
    let (state, call) = runtime.start(request, &Session::new()).unwrap();
    assert_eq!(call.deadline, Duration::from_secs(60));
    assert_eq!(call.slot, 0);
    let (_, reply) = answer(call);
    let moved = runtime.step(state, SessionEvent::PrimaryReplied(reply));
    assert_eq!(moved.calls.len(), 2);
    assert_eq!(moved.calls[1].deadline, Duration::from_millis(5));
    assert_eq!(moved.calls[1].request.agent, "slow");

    let mut calls = moved.calls;
    let slow = calls.pop().unwrap();
    let quick = calls.pop().unwrap();
    let (slot, reply) = answer(quick);
    let after_quick = runtime.step(moved.state, SessionEvent::SubtaskReplied { slot, reply });
    assert!(matches!(after_quick.state, SessionState::AwaitingSubtasks { .. }));
    let after_slow = runtime.step(
        after_quick.state,
        SessionEvent::SubtaskReplied { slot: slow.slot, reply: BackendReply::TimedOut },
    );
    assert!(after_slow.events.is_empty());
    assert!(after_slow.calls.is_empty());
    match finished(after_slow.state) {
        Err(SessionError::Timeout) => {},
        _ => panic!("expected a timeout and no result"),
    }
}

#[test]
fn primary_timeout_starts_no_subtask() {
    let runtime = runtime_with("{}");
    let mut request = SessionRequest::new("Lead");
    request.subtasks = vec![SubagentInvocation::new("primary", "Never")];
    let (state, _call) = runtime.start(request, &Session::new()).unwrap();
    let moved = runtime.step(state, SessionEvent::PrimaryReplied(BackendReply::TimedOut));
    assert!(moved.calls.is_empty());
    assert!(moved.events.is_empty());
    assert!(matches!(finished(moved.state), Err(SessionError::Timeout)));
}

#[test]
fn backend_failure_carries_its_cause() {
    let runtime = runtime_with("{}");
    let (state, _call) = runtime.start(SessionRequest::new("Lead"), &Session::new()).unwrap();
    let moved = runtime.step(
        state,
        SessionEvent::PrimaryReplied(BackendReply::Failed("connection reset".to_string())),
    );
    match finished(moved.state) {
        Err(SessionError::Backend(cause)) => assert_eq!(cause, "connection reset"),
        _ => panic!("expected a backend failure"),
    }
}

#[test]
fn unknown_agents_abort_the_run() {
    let runtime = runtime_with("{}");
    let mut request = SessionRequest::new("Lead");
    request.agent = Some("ghost".to_string());
    match runtime.start(request, &Session::new()) {
        Err(SessionError::UnknownAgent(name)) => assert_eq!(name, "ghost"),
        _ => panic!("expected an unknown agent"),
    }

    let mut request = SessionRequest::new("Lead");
    request.subtasks = vec![
        SubagentInvocation::new("primary", "Fine"),
        SubagentInvocation::new("ghost", "Lost"),
    ];
    let (state, call) = runtime.start(request, &Session::new()).unwrap();
    let (_, reply) = answer(call);
    let moved = runtime.step(state, SessionEvent::PrimaryReplied(reply));
    assert!(moved.calls.is_empty());
    assert_eq!(moved.events.len(), 1);
    match finished(moved.state) {
        Err(SessionError::UnknownAgent(name)) => assert_eq!(name, "ghost"),
        _ => panic!("expected an unknown agent"),
    }
}

#[test]
fn run_without_subtasks_ends_with_the_primary() {
    let runtime = runtime_with("{}");
    let session = Session::with_id(SessionId { value: 7 });
    let (state, call) = runtime.start(SessionRequest::new("  Only this  "), &session).unwrap();
    assert_eq!(call.request.tool_names, vec!["echo".to_string()]);
    assert_eq!(call.request.model.id(), "baseline/model");
    assert_eq!(call.request.objective, "  Only this  ");
    match &call.started {
        AgentEvent::Started { session_id, agent, objective } => {
            assert_eq!(session_id.value, 7);
            assert_eq!(agent, "primary");
            assert_eq!(objective, "  Only this  ");
        },
        _ => panic!("expected a start"),
    }
    let (_, reply) = answer(call);
    let moved = runtime.step_with(state, SessionEvent::PrimaryReplied(reply), &[]);
    let result = finished(moved.state).unwrap();
    assert!(result.subtasks.is_empty());
    assert_eq!(result.primary.session_id, SessionId { value: 7 });
    assert_eq!(result.primary.summary, "primary completed objective: Only this");
}

#[test]
fn late_and_stray_replies_change_nothing() {
    let runtime = runtime_with("{}");
    let mut request = SessionRequest::new("Lead");
    request.subtasks = vec![SubagentInvocation::new("primary", "Once")];
    let (state, call) = runtime.start(request, &Session::new()).unwrap();

    let stray = runtime.step(
        state,
        SessionEvent::SubtaskReplied { slot: 0, reply: BackendReply::TimedOut },
    );
    assert!(matches!(stray.state, SessionState::AwaitingPrimary { .. }));

    let (_, reply) = answer(call);
    let moved = runtime.step(stray.state, SessionEvent::PrimaryReplied(reply));
    let out_of_range = runtime.step(
        moved.state,
        SessionEvent::SubtaskReplied { slot: 9, reply: BackendReply::TimedOut },
    );
    assert!(matches!(out_of_range.state, SessionState::AwaitingSubtasks { .. }));

    let done = runtime.step(
        out_of_range.state,
        SessionEvent::SubtaskReplied {
            slot: 0,
            reply: BackendReply::Completed(CompletionResponse {
                summary: "first".to_string(),
                raw_output: String::new(),
            }),
        },
    );
    let late = runtime.step(
        done.state,
        SessionEvent::SubtaskReplied {
            slot: 0,
            reply: BackendReply::Completed(CompletionResponse {
                summary: "second".to_string(),
                raw_output: String::new(),
            }),
        },
    );
    assert!(late.events.is_empty());
    let result = finished(late.state).unwrap();
    assert_eq!(result.subtasks.len(), 1);
    assert_eq!(result.subtasks[0].summary, "first");
}

#[test]
fn subtasks_inherit_the_primary_model_and_tools() {
    let runtime = runtime_with(
        r#"{"primary": {"model": "lead/model", "tools": {"deny": ["echo"]}},
            "helper": {"mode": "subagent", "budgets": {"toolTimeoutMs": 3000}}}"#,
    );
    let mut request = SessionRequest::new("Lead");
    request.subtasks = vec![SubagentInvocation::new("helper", "Assist")];
    let (state, call) = runtime.start(request, &Session::new()).unwrap();
    assert_eq!(call.request.model.id(), "lead/model");
    assert!(call.request.tool_names.is_empty());
    let (_, reply) = answer(call);
    let mut moved = runtime.step(state, SessionEvent::PrimaryReplied(reply));
    let helper = moved.calls.pop().unwrap();
    assert_eq!(helper.request.model.id(), "lead/model");
    assert!(helper.request.tool_names.is_empty());
    let (slot, reply) = answer(helper);
    let end = runtime.step(moved.state, SessionEvent::SubtaskReplied { slot, reply });
    let result = finished(end.state).unwrap();
    assert_eq!(result.subtasks[0].summary, "helper completed objective: Assist (tool timeout 3s)");
}

#[test]
fn fresh_sessions_carry_random_identifiers() {
    let a = Session::new().id();
    let b = Session::new().id();
    assert_ne!(a, b);
    assert_eq!((a.value >> 76) & 0xf, 4);
    assert_eq!((a.value >> 62) & 0x3, 2);
    assert_eq!(SessionId::nil().value, 0);
}
