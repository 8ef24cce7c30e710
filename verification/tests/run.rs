use opencode_rust::agent::session::{Session, SessionId};
use opencode_rust::agent::spec::ModelHandle;
use opencode_rust::cli::cmd::run::{
    build_objective, render_result, OutputFormat, Run, RunReport, SubtaskReport,
};
use opencode_rust::session::prompts::SessionPrompts;
use opencode_rust::session::runtime::{SessionResult, SubagentOutcome};
use opencode_rust::util::config::Info;
use opencode_rust::util::json::{find, JsonValue};

fn member<'a>(value: &'a JsonValue, key: &str) -> &'a JsonValue {
    match value {
        JsonValue::Object(members) => find(members, key).expect("the member exists"),
        _ => panic!("expected an object"),
    }
}

fn text(value: &JsonValue) -> &str {
    match value {
        JsonValue::String(s) => s.as_str(),
        _ => panic!("expected a string"),
    }
}

fn plain_run(message: &[&str]) -> Run {
    Run {
        message: message.iter().map(|word| word.to_string()).collect(),
        command: None,
        continue_session: false,
        session: None,
        share: false,
        model: None,
        agent: None,
        format: OutputFormat::Default,
        file: Vec::new(),
        agents_json: None,
    }
}

fn sample_result() -> SessionResult {
    let outcome = SubagentOutcome {
        agent: "primary".to_string(),
        objective: "Ship feature".to_string(),
        session_id: SessionId::nil(),
        summary: "done".to_string(),
        model: ModelHandle::new("test/model"),
        raw_output: "<prompt>".to_string(),
    };
    SessionResult {
        primary: outcome,
        subtasks: vec![SubagentOutcome {
            agent: "builder".to_string(),
            objective: "Compile".to_string(),
            session_id: Session::new().id(),
            summary: "compiled".to_string(),
            model: ModelHandle::new("child/model"),
            raw_output: "child".to_string(),
        }],
    }
}

#[test]
fn serializes_run_report_to_json() {
    let result = sample_result();

    let report = RunReport::from(&result);
    let value = report.to_json();
    assert_eq!(text(member(member(&value, "primary"), "agent")), "primary");
    assert_eq!(text(member(member(&value, "primary"), "model")), "test/model");
    match member(&value, "subtasks") {
        JsonValue::Array(items) => assert_eq!(items.len(), 1),
        _ => panic!("expected an array"),
    }
    assert_eq!(
        text(member(member(&value, "primary"), "session_id")),
        "00000000-0000-0000-0000-000000000000"
    );
}

#[test]
fn plan_agent_appends_plan_reminder() {
    let cmd = Run {
        message: vec!["Plan the work".to_string()],
        command: None,
        continue_session: false,
        session: None,
        share: false,
        model: None,
        agent: Some("plan".to_string()),
        format: OutputFormat::Default,
        file: Vec::new(),
        agents_json: None,
    };

    let objective = build_objective(&cmd, &cmd.joined_message());
    assert!(objective.contains(SessionPrompts::plan_reminder().trim()));
}

#[test]
fn build_agent_includes_switch_when_continuing() {
    let cmd = Run {
        message: vec!["Implement feature".to_string()],
        command: None,
        continue_session: true,
        session: Some("session-1".to_string()),
        share: false,
        model: None,
        agent: Some("build".to_string()),
        format: OutputFormat::Default,
        file: Vec::new(),
        agents_json: None,
    };

    let objective = build_objective(&cmd, &cmd.joined_message());
    assert!(objective.contains(SessionPrompts::build_switch().trim()));
}

#[test]
fn objective_joins_command_message_and_attachments() {
    let mut cmd = plain_run(&["hello", "world"]);
    assert_eq!(cmd.joined_message(), "hello world");
    assert_eq!(build_objective(&cmd, "hello world"), "hello world");

    cmd.command = Some("review".to_string());
    assert_eq!(build_objective(&cmd, "hello world"), "review -- hello world");
    assert_eq!(build_objective(&cmd, ""), "review");

    cmd.file = vec!["a.rs".to_string(), "docs/b.md".to_string()];
    assert_eq!(
        build_objective(&cmd, "hello"),
        "review -- hello [attachments: a.rs, docs/b.md]"
    );

    cmd.agent = Some("build".to_string());
    assert_eq!(
        build_objective(&cmd, "hello"),
        "review -- hello [attachments: a.rs, docs/b.md]"
    );

    let mut bare = plain_run(&[]);
    bare.agent = Some("plan".to_string());
    assert_eq!(build_objective(&bare, ""), SessionPrompts::plan_reminder().trim());
    assert!(!bare.has_input());
    assert!(cmd.has_input());
}

#[test]
fn default_model_falls_back_in_order() {
    let mut cmd = plain_run(&["x"]);
    let mut config = Info::default();
    assert_eq!(cmd.default_model(&config).id(), "openai/gpt-4o");
    config.model = Some("config/model".to_string());
    assert_eq!(cmd.default_model(&config).id(), "config/model");
    cmd.model = Some("flag/model".to_string());
    assert_eq!(cmd.default_model(&config).id(), "flag/model");
}

#[test]
fn report_round_trip_preserves_every_outcome() {
    let result = sample_result();
    let report = RunReport::from(&result);
    let back = report.to_result().expect("every session id reads back");

    let pairs = [(&result.primary, &back.primary), (&result.subtasks[0], &back.subtasks[0])];
    for (before, after) in pairs {
        assert_eq!(before.agent, after.agent);
        assert_eq!(before.objective, after.objective);
        assert_eq!(before.session_id, after.session_id);
        assert_eq!(before.summary, after.summary);
        assert_eq!(before.model.id(), after.model.id());
        assert_eq!(before.raw_output, after.raw_output);
    }
    assert_eq!(back.subtasks.len(), 1);

    let mut broken = SubtaskReport::from(&result.primary);
    broken.session_id = "not-an-id".to_string();
    assert!(broken.to_outcome().is_none());
}

#[test]
fn session_id_text_form_is_hyphenated_hex() {
    let id = SessionId { value: 0xa1a2a3a4_b1b2_c1c2_d1d2_d3d4d5d6d7d8 };
    assert_eq!(id.to_string(), "a1a2a3a4-b1b2-c1c2-d1d2-d3d4d5d6d7d8");
    assert_eq!(SessionId::parse("a1a2a3a4-b1b2-c1c2-d1d2-d3d4d5d6d7d8"), Some(id));
    assert_eq!(SessionId::parse("A1A2A3A4-b1b2-c1c2-d1d2-d3d4d5d6d7d8"), None);
    assert_eq!(SessionId::parse("a1a2a3a4b1b2c1c2d1d2d3d4d5d6d7d8"), None);
    assert_eq!(SessionId::parse("a1a2a3a4-b1b2-c1c2-d1d2-d3d4d5d6d7d"), None);
    assert_eq!(SessionId::parse("a1a2a3a4-b1b2-c1c2-d1d2+d3d4d5d6d7d8"), None);
    let max = SessionId { value: u128::MAX };
    assert_eq!(max.to_string(), "ffffffff-ffff-ffff-ffff-ffffffffffff");
    assert_eq!(SessionId::parse(&max.to_string()), Some(max));
}

#[test]
fn default_format_prints_summaries() {
    let result = sample_result();
    assert_eq!(render_result(&result), vec!["done".to_string(), "[builder] compiled".to_string()]);
}

#[test]
fn report_reads_back_from_its_json_form() {
    let result = sample_result();
    let report = RunReport::from(&result);
    let read = RunReport::from_json(&report.to_json()).expect("the form is that of a report");
    assert_eq!(read.primary.agent, "primary");
    assert_eq!(read.primary.session_id, "00000000-0000-0000-0000-000000000000");
    assert_eq!(read.subtasks.len(), 1);
    assert_eq!(read.subtasks[0].session_id, report.subtasks[0].session_id);
    let back = read.to_result().unwrap();
    assert_eq!(back.subtasks[0].session_id, result.subtasks[0].session_id);
    assert_eq!(back.primary.model.id(), "test/model");
    assert_eq!(back.subtasks[0].objective, "Compile");

    assert!(RunReport::from_json(&JsonValue::Null).is_none());
    assert!(SubtaskReport::from_json(&JsonValue::Object(Vec::new())).is_none());
}
