use std::sync::Arc;

use opencode_rust::agent::registry::{
    definitions_from_json, parse_agents_json, parse_agents_source, AgentRegistry, SourceFile,
};
use opencode_rust::agent::spec::{
    resolve_model, resolve_tools, AgentBudgets, AgentBudgetsDefinition, AgentMode,
    AgentRuntimeDefinition, AgentSpec, AgentToolDefinition, ModelHandle, ToolRules,
};
use opencode_rust::session::prompt_builder::{
    build_prompt, collect_rule_source, compose_constraints, guidance_names, guidance_names_with,
    ProjectContext, PromptBuilder, RuleSource,
};
use opencode_rust::tool::base::Tool;
use opencode_rust::tool::echo::EchoTool;
use opencode_rust::util::config::{AgentConfig, Info};
use opencode_rust::util::error::{OpenCodeError, SessionError};
use opencode_rust::util::json::JsonValue;
use opencode_rust::util::time::Duration;

struct FakeTool;

impl Tool for FakeTool {
    fn name(&self) -> &str {
        "shell"
    }

    fn description(&self) -> &str {
        "shell executor"
    }

    fn execute(&self, _args: &[String]) -> Result<String, OpenCodeError> {
        Ok(String::new())
    }
}

fn empty_config() -> AgentConfig {
    AgentConfig {
        model: None,
        temperature: None,
        top_p: None,
        prompt: None,
        tools: None,
        disable: None,
        description: None,
        mode: None,
        permission: None,
        extra: Vec::new(),
    }
}

fn names(tools: &[Arc<dyn Tool>]) -> Vec<String> {
    tools.iter().map(|tool| tool.name().to_string()).collect()
}

fn strings(items: &[&str]) -> Vec<String> {
    items.iter().map(|item| item.to_string()).collect()
}

#[test]
fn merges_runtime_overrides() {
    let mut agent_config = AgentConfig {
        model: Some("config-model".to_string()),
        temperature: None,
        top_p: None,
        prompt: Some("Base prompt".to_string()),
        tools: Some(vec![("echo".to_string(), true), ("shell".to_string(), false)]),
        disable: None,
        description: Some("Primary agent".to_string()),
        mode: Some(opencode_rust::util::config::AgentMode::Primary),
        permission: None,
        extra: Vec::new(),
    };
    agent_config
        .extra
        .push(("reportFormat".to_string(), JsonValue::String("Summaries".to_string())));

    let mut info = Info::default();
    info.agent = Some(vec![("primary".to_string(), agent_config)]);

    let mut registry = AgentRegistry::from_info(&info);
    let overrides = parse_agents_json(
        r#"{
        "primary": {
            "model": "cli-model",
            "promptSections": ["Runtime prompt"],
            "budgets": {"maxTokens": 400},
            "tools": {"allow": ["echo"]}
        },
        "builder": {
            "model": "builder-model",
            "prompt": "Build artifacts",
            "mode": "subagent"
        }
    }"#,
    )
    .expect("valid json");
    registry.apply_runtime_map(&overrides);
    registry.ensure_primary();

    let primary = registry.require_spec("primary").expect("primary spec");
    assert_eq!(primary.model.as_deref(), Some("cli-model"));
    assert_eq!(primary.prompt_sections, vec!["Runtime prompt".to_string()]);
    assert_eq!(primary.budgets.max_tokens, Some(400));

    let parent_model = ModelHandle::new("fallback/model");
    let resolved_model = resolve_model(&primary, &parent_model);
    assert_eq!(resolved_model.id(), "cli-model");

    let toolset: Vec<Arc<dyn Tool>> = vec![Arc::new(EchoTool), Arc::new(FakeTool)];
    let resolved_tools = resolve_tools(&primary, &toolset);
    assert_eq!(resolved_tools.len(), 1);
    assert_eq!(resolved_tools[0].name(), "echo");

    let builder = registry.require_spec("builder").expect("builder spec");
    let child_model = resolve_model(&builder, &resolved_model);
    assert_eq!(child_model.id(), "builder-model");

    assert_eq!(primary.description.as_deref(), Some("Primary agent"));
    assert_eq!(primary.report_format.as_deref(), Some("Summaries"));
    assert_eq!(primary.mode, AgentMode::Primary);
    assert_eq!(primary.tool_rules.deny_list().to_vec(), strings(&["shell"]));
    assert_eq!(builder.mode, AgentMode::Subagent);
    assert_eq!(builder.prompt_sections, strings(&["Build artifacts"]));
}

#[test]
fn prompt_builder_collects_rules() {
    let sources = vec![
        RuleSource { path: "GUIDE.md".to_string(), content: "Global guidance".to_string() },
        RuleSource { path: "docs/AGENTS.md".to_string(), content: "Docs agent".to_string() },
        RuleSource { path: "migration/task.md".to_string(), content: "Migration steps".to_string() },
    ];
    let instructions = Some(vec!["Stay focused".to_string()]);

    let context = ProjectContext::gather("/project", &instructions, &sources);

    let mut spec = AgentSpec::new("primary");
    spec.prompt_sections = vec!["Handle user requests".to_string()];
    spec.description = Some("Primary orchestrator".to_string());
    spec.budgets.max_tokens = Some(200);

    let builder = PromptBuilder::new(&spec, &context, "Implement feature");
    let prompt = builder.build();

    assert!(prompt.contains("<ROLE>"));
    assert!(prompt.contains("Handle user requests"));
    assert!(prompt.contains("Stay focused"));
    assert!(prompt.contains("Global guidance"));
    assert!(prompt.contains("Migration steps"));
    assert!(prompt.contains("Limit responses to 200 tokens."));
    assert!(prompt.contains("<REPORT_FORMAT>"));
}

#[test]
fn inherits_parent_model_when_unspecified() {
    let spec = AgentSpec::new("child");
    let parent = ModelHandle::new("parent/model");
    let resolved = resolve_model(&spec, &parent);
    assert_eq!(resolved.id(), "parent/model");
}

#[test]
fn override_model_wins_over_parent() {
    let mut spec = AgentSpec::new("child");
    spec.model = Some("own/model".to_string());
    let parent = ModelHandle::new("parent/model");
    assert_eq!(resolve_model(&spec, &parent).id(), "own/model");
    assert!(resolve_model(&spec, &parent) == ModelHandle::new("own/model"));
    assert!(resolve_model(&spec, &parent) != parent);
}

#[test]
fn new_spec_has_generated_prompt_and_defaults() {
    let spec = AgentSpec::new("builder");
    assert_eq!(spec.name, "builder");
    assert_eq!(spec.mode, AgentMode::All);
    assert_eq!(
        spec.prompt_sections,
        strings(&["You are the builder agent. Respond with actionable assistance."])
    );
    assert!(spec.description.is_none());
    assert!(spec.model.is_none());
    assert!(spec.report_format.is_none());
    assert!(spec.tool_rules.allow_list().is_none());
    assert!(spec.tool_rules.deny_list().is_empty());
    assert_eq!(spec.budgets, AgentBudgets::default());
    assert_eq!(AgentMode::default(), AgentMode::All);
}

#[test]
fn inherit_rules_keep_parent_tools_in_order() {
    let spec = AgentSpec::new("child");
    let toolset: Vec<Arc<dyn Tool>> = vec![Arc::new(FakeTool), Arc::new(EchoTool)];
    let resolved = resolve_tools(&spec, &toolset);
    assert_eq!(names(&resolved), strings(&["shell", "echo"]));
}

#[test]
fn deny_is_applied_after_allow() {
    let mut spec = AgentSpec::new("child");
    spec.tool_rules.update_from_definition(&AgentToolDefinition {
        allow: strings(&["shell", "echo", "missing"]),
        deny: strings(&["shell", "unknown"]),
    });
    let toolset: Vec<Arc<dyn Tool>> = vec![Arc::new(FakeTool), Arc::new(EchoTool)];
    let resolved = resolve_tools(&spec, &toolset);
    assert_eq!(names(&resolved), strings(&["echo"]));
}

#[test]
fn deny_alone_removes_from_all_parent_tools() {
    let mut spec = AgentSpec::new("child");
    spec.tool_rules.update_from_definition(&AgentToolDefinition {
        allow: Vec::new(),
        deny: strings(&["echo"]),
    });
    let toolset: Vec<Arc<dyn Tool>> = vec![Arc::new(FakeTool), Arc::new(EchoTool)];
    assert_eq!(names(&resolve_tools(&spec, &toolset)), strings(&["shell"]));
}

#[test]
fn tool_lists_are_sorted_and_deduplicated() {
    let mut rules = ToolRules::inherit();
    rules.update_from_definition(&AgentToolDefinition {
        allow: strings(&["write", "bash", "echo", "bash", "Zed"]),
        deny: strings(&["b", "a", "b"]),
    });
    assert_eq!(rules.allow_list().unwrap().to_vec(), strings(&["Zed", "bash", "echo", "write"]));
    assert_eq!(rules.deny_list().to_vec(), strings(&["a", "b"]));

    rules.update_from_definition(&AgentToolDefinition { allow: Vec::new(), deny: Vec::new() });
    assert_eq!(rules.allow_list().unwrap().to_vec(), strings(&["Zed", "bash", "echo", "write"]));
    assert_eq!(rules.deny_list().to_vec(), strings(&["a", "b"]));
}

#[test]
fn tool_switches_split_into_allow_and_deny() {
    let mut rules = ToolRules::inherit();
    rules.update_from_map(&[
        ("write".to_string(), true),
        ("bash".to_string(), false),
        ("echo".to_string(), true),
    ]);
    assert_eq!(rules.allow_list().unwrap().to_vec(), strings(&["echo", "write"]));
    assert_eq!(rules.deny_list().to_vec(), strings(&["bash"]));

    rules.update_from_map(&[("fetch".to_string(), false)]);
    assert_eq!(rules.allow_list().unwrap().to_vec(), strings(&["echo", "write"]));
    assert_eq!(rules.deny_list().to_vec(), strings(&["fetch"]));
}

#[test]
fn runtime_override_is_idempotent() {
    let overrides = parse_agents_json(
        r#"{"builder": {"model": "m", "prompt": "Build", "mode": "subagent",
            "tools": {"allow": ["b", "a", "b"], "deny": ["z"]},
            "budgets": {"maxTokens": 7, "toolTimeoutMs": 1500, "wallClockMs": 90000},
            "description": "d", "reportFormat": "r"}}"#,
    )
    .unwrap();
    let mut once = AgentRegistry::new();
    once.apply_runtime_map(&overrides);
    let mut twice = AgentRegistry::new();
    twice.apply_runtime_map(&overrides);
    twice.apply_runtime_map(&overrides);

    let a = once.require_spec("builder").unwrap();
    let b = twice.require_spec("builder").unwrap();
    assert_eq!(a, b);
    assert_ne!(a, once.require_spec("primary").unwrap());
    assert_eq!(a.name, b.name);
    assert_eq!(a.description, b.description);
    assert_eq!(a.mode, b.mode);
    assert_eq!(a.model, b.model);
    assert_eq!(a.prompt_sections, b.prompt_sections);
    assert_eq!(a.tool_rules.allow_list().unwrap().to_vec(), b.tool_rules.allow_list().unwrap().to_vec());
    assert_eq!(a.tool_rules.deny_list().to_vec(), b.tool_rules.deny_list().to_vec());
    assert_eq!(a.budgets, b.budgets);
    assert_eq!(a.report_format, b.report_format);
    assert_eq!(once.all().len(), twice.all().len());

    assert_eq!(a.tool_rules.allow_list().unwrap().to_vec(), strings(&["a", "b"]));
    assert_eq!(a.budgets.max_tokens, Some(7));
    assert_eq!(a.budgets.tool_timeout, Some(Duration::from_millis(1500)));
    assert_eq!(a.budgets.wall_clock, Some(Duration::from_secs(90)));
    assert_eq!(a.budgets.tool_timeout.unwrap().as_secs(), 1);
    assert_eq!(a.budgets.tool_timeout.unwrap().subsec_nanos(), 500_000_000);
}

#[test]
fn model_only_override_keeps_description() {
    let mut registry = AgentRegistry::new();
    let mut first = AgentRuntimeDefinition::default();
    first.description = Some("Keeps the build green".to_string());
    first.prompt = Some("Build".to_string());
    registry.apply_runtime_definition("builder", &first);

    let mut second = AgentRuntimeDefinition::default();
    second.model = Some("other/model".to_string());
    registry.apply_runtime_definition("builder", &second);

    let spec = registry.require_spec("builder").unwrap();
    assert_eq!(spec.model.as_deref(), Some("other/model"));
    assert_eq!(spec.description.as_deref(), Some("Keeps the build green"));
    assert_eq!(spec.prompt_sections, strings(&["Build"]));
}

#[test]
fn prompt_sections_win_over_prompt_and_blank_prompt_is_ignored() {
    let mut spec = AgentSpec::new("x");
    let mut definition = AgentRuntimeDefinition::default();
    definition.prompt = Some("  \n".to_string());
    spec.apply_runtime(&definition);
    assert_eq!(spec.prompt_sections, strings(&["You are the x agent. Respond with actionable assistance."]));

    definition.prompt = Some(" single ".to_string());
    spec.apply_runtime(&definition);
    assert_eq!(spec.prompt_sections, strings(&[" single "]));

    definition.prompt_sections = strings(&["one", "two"]);
    spec.apply_runtime(&definition);
    assert_eq!(spec.prompt_sections, strings(&["one", "two"]));
}

#[test]
fn agents_in_mode_follows_the_table() {
    let mut registry = AgentRegistry::new();
    let mut sub = AgentRuntimeDefinition::default();
    sub.mode = Some(AgentMode::Subagent);
    registry.apply_runtime_definition("helper", &sub);
    let mut primary = AgentRuntimeDefinition::default();
    primary.mode = Some(AgentMode::Primary);
    registry.apply_runtime_definition("lead", &primary);

    let for_primary: Vec<String> =
        registry.agents_in_mode(AgentMode::Primary).iter().map(|s| s.name.clone()).collect();
    assert_eq!(for_primary, strings(&["primary", "lead"]));
    let for_sub: Vec<String> =
        registry.agents_in_mode(AgentMode::Subagent).iter().map(|s| s.name.clone()).collect();
    assert_eq!(for_sub, strings(&["primary", "helper"]));
    let for_all: Vec<String> =
        registry.agents_in_mode(AgentMode::All).iter().map(|s| s.name.clone()).collect();
    assert_eq!(for_all, strings(&["primary", "helper", "lead"]));

    assert!(AgentMode::Primary.selects(AgentMode::All));
    assert!(!AgentMode::Primary.selects(AgentMode::Subagent));
    assert!(!AgentMode::Subagent.selects(AgentMode::Primary));
    assert!(AgentMode::All.selects(AgentMode::Subagent));
}

#[test]
fn require_spec_fails_for_unknown_agent() {
    let registry = AgentRegistry::new();
    assert_eq!(registry.default_agent_name(), "primary");
    assert!(registry.spec("primary").is_some());
    assert!(registry.spec("missing").is_none());
    match registry.require_spec("missing") {
        Err(SessionError::UnknownAgent(name)) => assert_eq!(name, "missing"),
        _ => panic!("expected an unknown agent"),
    }
    assert_eq!(
        SessionError::UnknownAgent("missing".to_string()).to_string(),
        "unknown agent 'missing'"
    );
    assert_eq!(AgentRegistry::default().all().len(), 1);
}

#[test]
fn ensure_primary_is_idempotent() {
    let mut registry = AgentRegistry::new();
    let first = registry.ensure_primary();
    let second = registry.ensure_primary();
    assert_eq!(first.name, "primary");
    assert_eq!(second.prompt_sections, first.prompt_sections);
    assert_eq!(registry.all().len(), 1);
}

#[test]
fn malformed_overrides_fail_with_parse() {
    assert!(matches!(parse_agents_json("{not json"), Err(SessionError::Parse(_))));
    assert!(matches!(parse_agents_json("[1, 2]"), Err(SessionError::Parse(_))));
    assert!(matches!(parse_agents_json(r#"{"a": {"model": 5}}"#), Err(SessionError::Parse(_))));
    assert!(matches!(parse_agents_json(r#"{"a": {"mode": "boss"}}"#), Err(SessionError::Parse(_))));
    assert!(matches!(
        parse_agents_json(r#"{"a": {"budgets": {"maxTokens": -1}}}"#),
        Err(SessionError::Parse(_))
    ));
    assert!(matches!(
        parse_agents_json(r#"{"a": {"budgets": {"maxTokens": 4294967296}}}"#),
        Err(SessionError::Parse(_))
    ));
    assert!(matches!(parse_agents_json(r#"{"": {}}"#), Err(SessionError::Parse(_))));
    let ok = parse_agents_json(r#"{"b": {"unknown": 1, "model": null}, "a": {}}"#).unwrap();
    let read: Vec<&str> = ok.iter().map(|entry| entry.0.as_str()).collect();
    assert_eq!(read, vec!["a", "b"]);
    assert!(ok[1].1.model.is_none());
}

#[test]
fn config_record_merges_field_by_field() {
    let mut registry = AgentRegistry::new();
    let mut config = empty_config();
    config.description = Some("Reviews changes".to_string());
    config.prompt = Some("Review".to_string());
    config.extra.push((
        "budgets".to_string(),
        JsonValue::Object(vec![(
            "maxTokens".to_string(),
            JsonValue::Number(opencode_rust::util::json::JsonNumber::Unsigned(64)),
        )]),
    ));
    config.extra.push((
        "promptSections".to_string(),
        JsonValue::Array(vec![
            JsonValue::String("  first  ".to_string()),
            JsonValue::Bool(true),
            JsonValue::String("   ".to_string()),
            JsonValue::String("second".to_string()),
        ]),
    ));
    registry.apply_config("auditor", &config);

    let mut later = empty_config();
    later.model = Some("review/model".to_string());
    registry.apply_config("auditor", &later);

    let spec = registry.require_spec("auditor").unwrap();
    assert_eq!(spec.description.as_deref(), Some("Reviews changes"));
    assert_eq!(spec.model.as_deref(), Some("review/model"));
    assert_eq!(spec.prompt_sections, strings(&["first", "second"]));
    assert_eq!(spec.budgets.max_tokens, Some(64));
}

#[test]
fn budgets_merge_and_describe() {
    let mut budgets = AgentBudgets::default();
    assert!(budgets.describe_constraints().is_empty());
    budgets.merge_definition(&AgentBudgetsDefinition {
        max_tokens: Some(128),
        tool_timeout_ms: Some(2999),
        wall_clock_ms: None,
    });
    let other = AgentBudgets {
        max_tokens: None,
        tool_timeout: None,
        wall_clock: Some(Duration::from_secs(61)),
    };
    budgets.merge(&other);
    assert_eq!(
        budgets.describe_constraints(),
        strings(&[
            "Limit responses to 128 tokens.",
            "Each tool call must complete within 2 seconds.",
            "Finish the task within 61 seconds of wall-clock time.",
        ])
    );
    assert_eq!(budgets.wall_clock_or(Duration::from_secs(60)), Duration::from_secs(61));
    assert_eq!(AgentBudgets::default().wall_clock_or(Duration::from_secs(60)), Duration::from_secs(60));
    assert_eq!(
        compose_constraints(&budgets),
        "- Limit responses to 128 tokens.\n- Each tool call must complete within 2 seconds.\n- Finish the task within 61 seconds of wall-clock time.\n- Stream only final summaries back to the parent session."
    );
}

#[test]
fn prompt_has_five_blocks_in_order() {
    let mut spec = AgentSpec::new("primary");
    spec.prompt_sections = strings(&["One", "Two"]);
    spec.description = Some("  Leads  ".to_string());
    let prompt = build_prompt(&spec, "RULES", "  Ship it \n");
    assert_eq!(
        prompt,
        "<ROLE>\nOne\n\nTwo\n\nLeads\n</ROLE>\n\n<OBJECTIVE>\nShip it\n</OBJECTIVE>\n\n<PROJECT_RULES>\nRULES\n</PROJECT_RULES>\n\n<CONSTRAINTS>\n- Stream only final summaries back to the parent session.\n</CONSTRAINTS>\n\n<REPORT_FORMAT>\nReturn a concise summary of the task outcome, including key decisions and follow-up steps.\n</REPORT_FORMAT>\n"
    );

    spec.prompt_sections = Vec::new();
    spec.description = None;
    spec.report_format = Some("Bullets".to_string());
    let fallback = build_prompt(&spec, "", "");
    assert!(fallback.starts_with("<ROLE>\nYou are a focussed coding agent.\n</ROLE>"));
    assert!(fallback.ends_with("<REPORT_FORMAT>\nBullets\n</REPORT_FORMAT>\n"));
}

#[test]
fn project_rules_fall_back_when_nothing_is_found() {
    let context = ProjectContext::gather("/p", &None, &[]);
    assert_eq!(context.rules(), "No repository-specific instructions were discovered.");
    assert_eq!(context.root(), "/p");

    let sources = vec![
        RuleSource { path: "a.md".to_string(), content: " \n".to_string() },
        RuleSource { path: "b.md".to_string(), content: "B".to_string() },
    ];
    let context = ProjectContext::gather("/p", &Some(strings(&["x", "y"])), &sources);
    assert_eq!(context.rules(), "# Project instructions\nx\ny\n\n# Source: b.md\nB");
}

#[test]
fn guidance_files_are_recognised() {
    let names = guidance_names();
    assert_eq!(names, strings(&["agents.md"]));
    assert!(collect_rule_source("Agents.MD", &strings(&["docs", "Agents.MD"]), Some("MD"), &names));
    assert!(collect_rule_source("AGENTS.md", &strings(&["AGENTS.md"]), Some("md"), &names));
    assert!(collect_rule_source("task.md", &strings(&["migration", "task.md"]), Some("md"), &names));
    assert!(!collect_rule_source("task.txt", &strings(&["migration", "task.txt"]), Some("txt"), &names));
    assert!(!collect_rule_source("readme.md", &strings(&["docs", "readme.md"]), Some("md"), &names));
    assert!(!collect_rule_source("migration", &strings(&["migration"]), None, &names));
    let more = guidance_names_with(&strings(&["Guide.MD"]));
    assert_eq!(more, strings(&["agents.md", "guide.md"]));
    assert!(collect_rule_source("GUIDE.md", &strings(&["GUIDE.md"]), Some("md"), &more));
    assert!(!collect_rule_source("GUIDE.md", &strings(&["GUIDE.md"]), Some("md"), &names));
}

#[test]
fn override_sources_are_files_or_documents() {
    let inline = parse_agents_source(r#"{"a": {"model": "m"}}"#, &SourceFile::Missing).unwrap();
    assert_eq!(inline[0].0, "a");
    assert_eq!(inline[0].1.model.as_deref(), Some("m"));

    let from_file = parse_agents_source(
        "agents.json",
        &SourceFile::Content(r#"{"b": {"prompt": "P"}}"#.to_string()),
    )
    .unwrap();
    assert_eq!(from_file[0].0, "b");
    assert_eq!(from_file[0].1.prompt.as_deref(), Some("P"));

    match parse_agents_source("agents.json", &SourceFile::Unreadable("permission denied".to_string())) {
        Err(SessionError::Io(cause)) => assert_eq!(cause, "permission denied"),
        _ => panic!("expected an I/O error"),
    }
    assert!(matches!(
        parse_agents_source("agents.json", &SourceFile::Missing),
        Err(SessionError::Parse(_))
    ));
    match definitions_from_json(&JsonValue::Array(Vec::new())) {
        Err(error) => assert_eq!(
            error.to_string(),
            "expected a JSON object that maps agent names to agent definitions"
        ),
        Ok(_) => panic!("expected an error"),
    }
}

#[test]
fn errors_render_their_cause() {
    assert_eq!(OpenCodeError::Io("gone".to_string()).to_string(), "I/O error: gone");
    assert_eq!(
        OpenCodeError::Json("bad".to_string()).to_string(),
        "JSON serialization error: bad"
    );
    assert_eq!(OpenCodeError::Config("odd".to_string()).to_string(), "Configuration error: odd");
    assert_eq!(OpenCodeError::WalkDir("loop".to_string()).to_string(), "WalkDir error: loop");
    assert_eq!(OpenCodeError::Reqwest("refused".to_string()).to_string(), "Reqwest error: refused");
    assert_eq!(SessionError::Timeout.to_string(), "deadline has elapsed");
    assert_eq!(SessionError::Backend("down".to_string()).to_string(), "down");
    assert_eq!(SessionError::Parse("bad".to_string()).to_string(), "bad");
    assert_eq!(SessionError::Io("gone".to_string()).to_string(), "gone");
}

#[test]
fn runtime_definitions_read_every_field() {
    let read = parse_agents_json(
        r#"{"x": {"model": "m", "promptSections": ["a", "b"], "prompt": "p", "description": "d",
            "reportFormat": "r", "tools": {"allow": ["t"], "deny": []},
            "budgets": {"maxTokens": 1, "toolTimeoutMs": 2, "wallClockMs": 3}, "mode": "all"}}"#,
    )
    .unwrap();
    let definition = &read[0].1;
    assert_eq!(definition.model.as_deref(), Some("m"));
    assert_eq!(definition.prompt_sections, strings(&["a", "b"]));
    assert_eq!(definition.prompt.as_deref(), Some("p"));
    assert_eq!(definition.description.as_deref(), Some("d"));
    assert_eq!(definition.report_format.as_deref(), Some("r"));
    let tools = definition.tools.as_ref().unwrap();
    assert_eq!(tools.allow, strings(&["t"]));
    assert!(tools.deny.is_empty());
    assert_eq!(
        definition.budgets,
        Some(AgentBudgetsDefinition {
            max_tokens: Some(1),
            tool_timeout_ms: Some(2),
            wall_clock_ms: Some(3),
        })
    );
    assert_eq!(definition.mode, Some(AgentMode::All));
    assert_eq!(AgentMode::from(opencode_rust::util::config::AgentMode::Subagent), AgentMode::Subagent);
}
