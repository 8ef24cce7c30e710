use opencode_rust::util::config::{
    parse_jsonc, remove_trailing_commas, strip_json_comments, ExperimentalConfig, FormatterConfig,
    HookCommand, HookConfig, Info, Keybinds, LocalMcpConfig, LspConfig, LspDisabledConfig,
    LspServerConfig, McpConfig, ProviderConfig, ProviderOptions, RemoteMcpConfig, Timeout, Tui,
    WatcherSettings,
};
use opencode_rust::util::error::OpenCodeError;
use opencode_rust::util::front_matter::{parse_front_matter, parse_scalar};
use opencode_rust::util::json::{find, JsonNumber, JsonValue};
use opencode_rust::util::load::parse_info;

fn field<'a>(value: &'a JsonValue, key: &str) -> Option<&'a JsonValue> {
    match value {
        JsonValue::Object(members) => find(members, key),
        _ => panic!("expected an object"),
    }
}

fn as_text(value: &JsonValue) -> &str {
    match value {
        JsonValue::String(s) => s.as_str(),
        _ => panic!("expected a string"),
    }
}

fn as_texts(value: &JsonValue) -> Vec<&str> {
    match value {
        JsonValue::Array(items) => items.iter().map(as_text).collect(),
        _ => panic!("expected an array"),
    }
}

fn scalar(text: &str) -> JsonValue {
    let chars: Vec<char> = text.chars().collect();
    parse_scalar(&chars)
}

fn watching(patterns: &[&str]) -> Info {
    let mut info = Info::default();
    info.watcher = Some(WatcherSettings {
        ignore: patterns.iter().map(|pattern| pattern.to_string()).collect(),
    });
    info
}

fn codes(info: &Info) -> Vec<(String, String)> {
    match info.validate() {
        Ok(()) => Vec::new(),
        Err(list) => list.into_iter().map(|v| (v.field, v.code)).collect(),
    }
}

fn pair(field: &str, code: &str) -> (String, String) {
    (field.to_string(), code.to_string())
}

#[test]
fn parses_minimal_configuration() {
    let info = parse_info("{}").unwrap();
    assert!(info.schema.is_none());
    assert!(info.theme.is_none());
    assert!(info.agent.is_none());
}

#[test]
fn parses_jsonc_with_comments_and_trailing_commas() {
    let source = r#"
    {
        // comment that should be ignored
        "theme": "dark",
        "watcher": {
            "ignore": ["**/*.tmp",]
        },
    }
    "#;

    let info = parse_info(source).unwrap();
    assert_eq!(info.theme.as_deref(), Some("dark"));
    assert_eq!(info.watcher.unwrap().ignore, vec!["**/*.tmp".to_string()]);
}

#[test]
fn rejects_invalid_validation_rules() {
    let source = r#"
    {
        "tui": {
            "scroll_speed": 0
        }
    }
    "#;

    let error = parse_info(source).unwrap_err();
    assert!(error.to_string().contains("scroll_speed"));
    assert_eq!(error.to_string(), "Configuration error: tui.scroll_speed: range\n");
}

#[test]
fn parses_markdown_front_matter() {
    let doc = r#"
---
name: build
agent: builder
---
echo "{{input}}"
"#;

    let parsed = parse_front_matter(doc).unwrap();
    assert_eq!(field(&parsed.data, "name").map(as_text), Some("build"));
    assert_eq!(field(&parsed.data, "agent").map(as_text), Some("builder"));
    match &parsed.data {
        JsonValue::Object(members) => assert_eq!(members.len(), 2),
        _ => panic!("expected an object"),
    }
    assert_eq!(parsed.content, "echo \"{{input}}\"");
}

#[test]
fn parses_front_matter_with_lists_and_scalars() {
    let doc = r#"
---
tags:
  - build
  - deploy
retries: 3
enabled: true
script: 'deploy.sh'
env: {"NODE_ENV": "production"}
---
npm run build
"#;

    let parsed = parse_front_matter(doc).unwrap();
    assert_eq!(as_texts(field(&parsed.data, "tags").unwrap()), vec!["build", "deploy"]);
    assert!(matches!(
        field(&parsed.data, "retries"),
        Some(JsonValue::Number(JsonNumber::Unsigned(3)))
    ));
    assert!(matches!(field(&parsed.data, "enabled"), Some(JsonValue::Bool(true))));
    assert_eq!(field(&parsed.data, "script").map(as_text), Some("deploy.sh"));
    assert_eq!(
        field(&parsed.data, "env").and_then(|env| field(env, "NODE_ENV")).map(as_text),
        Some("production"),
    );
    assert_eq!(parsed.content, "npm run build");
}

#[test]
fn merge_updates_watcher_ignore_patterns() {
    let mut base =
        parse_info(r#"{"watcher": {"ignore": ["**/*.log"]}, "theme": "dark"}"#).unwrap();

    base.merge(parse_info("{}").unwrap());
    assert_eq!(base.watcher_ignore_patterns(), vec!["**/*.log"]);

    base.merge(parse_info(r#"{"watcher": {"ignore": ["**/*.tmp"]}}"#).unwrap());
    assert_eq!(base.watcher_ignore_patterns(), vec!["**/*.tmp"]);
    assert_eq!(base.theme.as_deref(), Some("dark"));
    assert!(Info::default().watcher_ignore_patterns().is_empty());
    assert_eq!(watching(&["a"]).watcher_ignore_patterns(), vec!["a"]);
}

#[test]
fn merge_puts_entries_and_appends_lists() {
    let mut base = Info::default();
    base.tools = Some(vec![("bash".to_string(), true), ("echo".to_string(), true)]);
    base.plugin = Some(vec!["one".to_string()]);
    base.model = Some("a/b".to_string());
    let mut other = Info::default();
    other.tools = Some(vec![("echo".to_string(), false), ("fetch".to_string(), true)]);
    other.plugin = Some(vec!["two".to_string()]);
    other.instructions = Some(vec!["Be brief".to_string()]);
    base.merge(other);
    assert_eq!(
        base.tools,
        Some(vec![
            ("bash".to_string(), true),
            ("echo".to_string(), false),
            ("fetch".to_string(), true),
        ])
    );
    assert_eq!(base.plugin, Some(vec!["one".to_string(), "two".to_string()]));
    assert_eq!(base.instructions, Some(vec!["Be brief".to_string()]));
    assert_eq!(base.model.as_deref(), Some("a/b"));
}

#[test]
fn comments_are_stripped_outside_strings() {
    assert_eq!(strip_json_comments("{\"a\": 1} // tail"), "{\"a\": 1} ");
    assert_eq!(strip_json_comments("a // x\r\nb"), "a \r\nb");
    assert_eq!(strip_json_comments("a /* x\ny */ b"), "a \n b");
    assert_eq!(strip_json_comments("\"// not \\\" a /* comment\" /**/"), "\"// not \\\" a /* comment\" ");
    assert_eq!(strip_json_comments("1 / 2"), "1 / 2");
    assert_eq!(strip_json_comments("/* open"), "");
    assert_eq!(strip_json_comments("/"), "/");
}

#[test]
fn trailing_commas_are_removed_outside_strings() {
    assert_eq!(remove_trailing_commas("[1, 2, ]"), "[1, 2 ]");
    assert_eq!(remove_trailing_commas("{\"a\": [1,\n],\n}"), "{\"a\": [1\n]\n}");
    assert_eq!(remove_trailing_commas("\",]\""), "\",]\"");
    assert_eq!(remove_trailing_commas("[1,,]"), "[1,]");
    assert_eq!(remove_trailing_commas("]"), "]");
    assert_eq!(remove_trailing_commas("[\"a\\\",\" ,]"), "[\"a\\\",\" ]");
}

#[test]
fn malformed_documents_are_rejected_with_the_parser_message() {
    let error = parse_jsonc("{ \"a\": }").unwrap_err();
    assert!(error.contains("line 1"));
    assert!(parse_jsonc("").is_err());
    assert!(matches!(parse_jsonc("// only\n7"), Ok(JsonValue::Number(JsonNumber::Unsigned(7)))));
    assert!(matches!(parse_jsonc("-7"), Ok(JsonValue::Number(JsonNumber::Negative(-7)))));
    match parse_jsonc("1.5").unwrap() {
        JsonValue::Number(JsonNumber::Decimal(text)) => assert_eq!(text, "1.5"),
        _ => panic!("expected a decimal"),
    }
    match parse_jsonc("{\"b\": 1, \"a\": 2, \"b\": 3}").unwrap() {
        JsonValue::Object(members) => {
            let keys: Vec<&str> = members.iter().map(|m| m.0.as_str()).collect();
            assert_eq!(keys, vec!["a", "b"]);
            assert!(matches!(members[1].1, JsonValue::Number(JsonNumber::Unsigned(3))));
        },
        _ => panic!("expected an object"),
    }
}

#[test]
fn front_matter_errors_name_what_is_wrong() {
    let no_front = parse_front_matter("\u{feff}  just text \n").unwrap();
    assert_eq!(no_front.content, "just text");
    assert!(matches!(&no_front.data, JsonValue::Object(members) if members.is_empty()));

    match parse_front_matter("---x\nname: a\n---\n") {
        Err(OpenCodeError::Config(m)) => assert_eq!(m, "front matter must start with '---'"),
        _ => panic!("expected an error"),
    }
    match parse_front_matter("---\nname: a\n") {
        Err(OpenCodeError::Config(m)) => {
            assert_eq!(m, "unterminated front matter, expected closing '---'")
        },
        _ => panic!("expected an error"),
    }
    match parse_front_matter("---\n- stray\n---\nbody") {
        Err(OpenCodeError::Config(m)) => {
            assert_eq!(m, "unexpected list item without key in front matter")
        },
        _ => panic!("expected an error"),
    }
    let empty = parse_front_matter("---\n\n---\nbody\n---\nmore").unwrap();
    assert!(matches!(empty.data, JsonValue::Null));
    assert_eq!(empty.content, "body\n---\nmore");
}

#[test]
fn front_matter_members_are_kept_in_key_order() {
    let parsed = parse_front_matter("---\nb: 1\na: 2\nb: 3\nlist:\n---\n").unwrap();
    match &parsed.data {
        JsonValue::Object(members) => {
            let keys: Vec<&str> = members.iter().map(|m| m.0.as_str()).collect();
            assert_eq!(keys, vec!["a", "b", "list"]);
            assert!(matches!(members[1].1, JsonValue::Number(JsonNumber::Unsigned(3))));
            assert!(matches!(&members[2].1, JsonValue::Array(items) if items.is_empty()));
        },
        _ => panic!("expected an object"),
    }
}

#[test]
fn scalars_read_by_their_shape() {
    assert!(matches!(scalar("   "), JsonValue::Null));
    assert!(matches!(scalar("NULL"), JsonValue::Null));
    assert!(matches!(scalar("True"), JsonValue::Bool(true)));
    assert!(matches!(scalar("false"), JsonValue::Bool(false)));
    assert!(matches!(scalar("42"), JsonValue::Number(JsonNumber::Unsigned(42))));
    assert!(matches!(scalar("+42"), JsonValue::Number(JsonNumber::Unsigned(42))));
    assert!(matches!(scalar("-0"), JsonValue::Number(JsonNumber::Unsigned(0))));
    assert!(matches!(scalar("-17"), JsonValue::Number(JsonNumber::Negative(-17))));
    assert!(matches!(
        scalar("-9223372036854775808"),
        JsonValue::Number(JsonNumber::Negative(i64::MIN))
    ));
    assert!(matches!(
        scalar("9223372036854775807"),
        JsonValue::Number(JsonNumber::Unsigned(9223372036854775807))
    ));
    match scalar("9223372036854775808") {
        JsonValue::Number(JsonNumber::Decimal(text)) => assert_eq!(text, "9.223372036854776e+18"),
        _ => panic!("expected a decimal"),
    }
    match scalar("2.50") {
        JsonValue::Number(JsonNumber::Decimal(text)) => assert_eq!(text, "2.5"),
        _ => panic!("expected a decimal"),
    }
    assert_eq!(as_text(&scalar("\"a\\nb\"")), "a\nb");
    assert_eq!(as_text(&scalar("\"open")), "\"open");
    assert_eq!(as_text(&scalar("'it''s'")), "it''s");
    assert_eq!(as_text(&scalar("'")), "'");
    assert_eq!(as_text(&scalar(" plain text ")), "plain text");
    assert_eq!(as_text(&scalar("{broken}")), "{broken}");
    assert_eq!(as_texts(&scalar("[\"a\", \"b\"]")), vec!["a", "b"]);
    match scalar("[a, 2, , 'c']") {
        JsonValue::Array(items) => {
            assert_eq!(items.len(), 3);
            assert_eq!(as_text(&items[0]), "a");
            assert!(matches!(items[1], JsonValue::Number(JsonNumber::Unsigned(2))));
            assert_eq!(as_text(&items[2]), "c");
        },
        _ => panic!("expected an array"),
    }
}

#[test]
fn validation_reports_every_broken_rule_in_order() {
    let mut info = Info::default();
    info.schema = Some("  ".to_string());
    info.theme = Some("dark".to_string());
    info.username = Some(String::new());
    let mut keybinds = Keybinds::default();
    keybinds.leader = Some(String::new());
    keybinds.app_help = Some(String::new());
    info.keybinds = Some(keybinds);
    info.tui = Some(Tui { scroll_speed: 1 });
    info.watcher = Some(WatcherSettings { ignore: vec!["**/*.log".to_string(), " ".to_string()] });
    let mut options = ProviderOptions::default();
    options.api_key = Some(String::new());
    options.base_url = Some("http://x".to_string());
    options.timeout = Some(Timeout::Millis(0));
    let mut provider = ProviderConfig::default();
    provider.options = Some(options);
    info.provider = Some(vec![("acme".to_string(), provider), ("bare".to_string(), ProviderConfig::default())]);
    info.mcp = Some(vec![
        ("loc".to_string(), McpConfig::Local(LocalMcpConfig { command: Vec::new(), environment: None, enabled: None })),
        ("good".to_string(), McpConfig::Remote(RemoteMcpConfig { url: "https://example.com/mcp".to_string(), enabled: None, headers: None })),
        ("bad".to_string(), McpConfig::Remote(RemoteMcpConfig { url: "not a url".to_string(), enabled: None, headers: None })),
    ]);
    let mut formatter = FormatterConfig::default();
    formatter.command = Some(Vec::new());
    info.formatter = Some(vec![("fmt".to_string(), formatter)]);
    info.lsp = Some(vec![
        ("off".to_string(), LspConfig::Disabled(LspDisabledConfig { disabled: true })),
        ("none".to_string(), LspConfig::Configurable(LspServerConfig {
            command: vec!["srv".to_string()], extensions: None, disabled: None, env: None, initialization: None,
        })),
        ("quiet".to_string(), LspConfig::Configurable(LspServerConfig {
            command: vec!["srv".to_string()], extensions: None, disabled: Some(true), env: None, initialization: None,
        })),
        ("empty".to_string(), LspConfig::Configurable(LspServerConfig {
            command: Vec::new(), extensions: Some(Vec::new()), disabled: Some(true), env: None, initialization: None,
        })),
    ]);
    info.experimental = Some(ExperimentalConfig {
        hook: Some(HookConfig {
            file_edited: Some(vec![(
                "*.rs".to_string(),
                vec![
                    HookCommand { command: vec!["fmt".to_string()], environment: None },
                    HookCommand { command: Vec::new(), environment: None },
                ],
            )]),
            session_completed: Some(Vec::new()),
        }),
        disable_paste_summary: None,
    });

    assert_eq!(
        codes(&info),
        vec![
            pair("$schema", "length"),
            pair("username", "length"),
            pair("keybinds.leader", "length"),
            pair("watcher.ignore", "glob"),
            pair("provider.acme.api_key", "length"),
            pair("provider.acme.timeout", "timeout"),
            pair("mcp.loc.command", "length"),
            pair("mcp.bad.url", "url"),
            pair("formatter.fmt.command", "length"),
            pair("lsp.none.extensions", "required"),
            pair("lsp.empty.command", "length"),
            pair("lsp.empty.extensions", "length"),
            pair("experimental.file_edited.*.rs[1].command", "length"),
            pair("experimental.session_completed", "length"),
        ]
    );
}

#[test]
fn configuration_reads_every_part() {
    let source = r#"{
        "$schema": "https://example.com/schema.json",
        "theme": "dark", // trailing comment
        "keybinds": {"leader": "ctrl+x", "unknown_binding": 1},
        "tui": {},
        "command": {"ship": {"template": "Ship {{input}}", "subtask": true}},
        "plugin": ["a", "b"],
        "snapshot": false,
        "share": "manual",
        "layout": "stretch",
        "model": "acme/large",
        "agent": {
            "builder": {
                "model": "acme/small",
                "temperature": 0.25,
                "top_p": 1,
                "tools": {"bash": true, "web_fetch": false},
                "mode": "subagent",
                "permission": {"edit": "ask", "bash": {"ls *": "allow", "rm *": "deny"}},
                "reportFormat": "Bullets",
                "budgets": {"maxTokens": 99},
            }
        },
        "provider": {
            "acme": {
                "models": {"large": {"limit": 10}},
                "options": {"apiKey": "SECRET-REDACTED", "timeout": false, "region": "eu"},
                "note": "kept"
            }
        },
        "mcp": {
            "files": {"type": "local", "command": ["serve"], "environment": {"A": "1"}},
            "web": {"type": "remote", "url": "https://example.com/mcp", "enabled": true}
        },
        "formatter": {"fmt": {"command": ["fmt", "-w"], "extensions": [".go"]}},
        "lsp": {
            "off": {"disabled": true},
            "go": {"command": ["gopls"], "extensions": [".go"]}
        },
        "instructions": ["Be brief"],
        "permission": {"bash": "deny", "webfetch": "allow"},
        "tools": {"echo": true},
        "experimental": {
            "hook": {"session_completed": [{"command": ["notify"]}]},
            "disable_paste_summary": true
        },
        "extra_top_level": [1, 2, 3]
    }"#;
    let info = parse_info(source).unwrap();
    assert_eq!(info.schema.as_deref(), Some("https://example.com/schema.json"));
    assert_eq!(info.keybinds.as_ref().unwrap().leader.as_deref(), Some("ctrl+x"));
    assert!(info.keybinds.as_ref().unwrap().app_exit.is_none());
    assert_eq!(info.tui.as_ref().unwrap().scroll_speed, 2);
    let command = &info.command.as_ref().unwrap()[0];
    assert_eq!(command.0, "ship");
    assert_eq!(command.1.template, "Ship {{input}}");
    assert_eq!(command.1.subtask, Some(true));
    assert_eq!(info.plugin, Some(vec!["a".to_string(), "b".to_string()]));
    assert_eq!(info.snapshot, Some(false));
    assert_eq!(info.share, Some(opencode_rust::util::config::ShareMode::Manual));
    assert_eq!(info.layout, Some(opencode_rust::util::config::Layout::Stretch));
    assert!(info.mode.is_none());

    let (name, agent) = &info.agent.as_ref().unwrap()[0];
    assert_eq!(name, "builder");
    assert_eq!(agent.model.as_deref(), Some("acme/small"));
    assert!(matches!(&agent.temperature, Some(JsonNumber::Decimal(text)) if text == "0.25"));
    assert!(matches!(&agent.top_p, Some(JsonNumber::Unsigned(1))));
    assert_eq!(
        agent.tools,
        Some(vec![("bash".to_string(), true), ("web_fetch".to_string(), false)])
    );
    assert_eq!(agent.mode, Some(opencode_rust::util::config::AgentMode::Subagent));
    let permission = agent.permission.as_ref().unwrap();
    assert_eq!(permission.edit, Some(opencode_rust::util::config::PermissionKind::Ask));
    match permission.bash.as_ref().unwrap() {
        opencode_rust::util::config::BashPermission::Matrix(entries) => {
            assert_eq!(entries.len(), 2);
            assert_eq!(entries[0].0, "ls *");
            assert_eq!(entries[1].1, opencode_rust::util::config::PermissionKind::Deny);
        },
        _ => panic!("expected a matrix"),
    }
    let extra: Vec<&str> = agent.extra.iter().map(|m| m.0.as_str()).collect();
    assert_eq!(extra, vec!["budgets", "reportFormat"]);

    let (_, provider) = &info.provider.as_ref().unwrap()[0];
    assert_eq!(provider.models.as_ref().unwrap()[0].0, "large");
    let options = provider.options.as_ref().unwrap();
    assert_eq!(options.api_key.as_deref(), Some("SECRET-REDACTED"));
    assert_eq!(options.timeout, Some(Timeout::Disabled));
    assert_eq!(options.extra.len(), 1);
    assert_eq!(options.extra[0].0, "region");
    assert_eq!(provider.extra[0].0, "note");

    let mcp = info.mcp.as_ref().unwrap();
    assert!(matches!(&mcp[0].1, McpConfig::Local(local) if local.command == vec!["serve".to_string()]
        && local.environment == Some(vec![("A".to_string(), "1".to_string())])));
    assert!(matches!(&mcp[1].1, McpConfig::Remote(remote) if remote.enabled == Some(true)));
    let lsp = info.lsp.as_ref().unwrap();
    assert_eq!(lsp[0].0, "go");
    assert!(matches!(&lsp[0].1, LspConfig::Disabled(d) if !d.disabled));
    assert!(matches!(&lsp[1].1, LspConfig::Disabled(d) if d.disabled));
    assert!(matches!(
        info.permission.as_ref().unwrap().bash,
        Some(opencode_rust::util::config::BashPermission::Single(
            opencode_rust::util::config::PermissionKind::Deny
        ))
    ));
    assert_eq!(info.tools, Some(vec![("echo".to_string(), true)]));
    let experimental = info.experimental.as_ref().unwrap();
    assert_eq!(experimental.disable_paste_summary, Some(true));
    assert_eq!(
        experimental.hook.as_ref().unwrap().session_completed.as_ref().unwrap()[0].command,
        vec!["notify".to_string()]
    );

    let registry = opencode_rust::agent::registry::AgentRegistry::from_info(&info);
    let builder = registry.require_spec("builder").unwrap();
    assert_eq!(builder.report_format.as_deref(), Some("Bullets"));
    assert_eq!(builder.budgets.max_tokens, Some(99));
    assert_eq!(builder.tool_rules.deny_list().to_vec(), vec!["web_fetch".to_string()]);
}

#[test]
fn configuration_of_the_wrong_form_is_rejected() {
    for source in [
        "[]",
        r#"{"theme": 1}"#,
        r#"{"tui": {"scroll_speed": -1}}"#,
        r#"{"tui": {"scroll_speed": null}}"#,
        r#"{"share": "public"}"#,
        r#"{"command": {"x": {}}}"#,
        r#"{"mcp": {"x": {"command": ["a"]}}}"#,
        r#"{"mcp": {"x": {"type": "remote"}}}"#,
        r#"{"provider": {"x": {"options": {"timeout": true}}}}"#,
        r#"{"provider": {"x": {"options": {"timeout": "1s"}}}}"#,
        r#"{"lsp": {"x": {"disabled": "yes"}}}"#,
        r#"{"permission": {"bash": "sometimes"}}"#,
        r#"{"tools": {"echo": "yes"}}"#,
        r#"{"plugin": ["a", 1]}"#,
    ] {
        match parse_info(source) {
            Err(OpenCodeError::Json(message)) => {
                assert_eq!(message, "the document does not have the form of a configuration")
            },
            _ => panic!("expected a JSON error"),
        }
    }
    assert!(matches!(parse_info("{"), Err(OpenCodeError::Json(_))));
    assert!(matches!(parse_info(r#"{"agent": {"": {}}}"#), Err(OpenCodeError::Config(m)) if m == "agent: length\n"));
    assert!(matches!(
        parse_info(r#"{"provider": {"x": {"options": {"timeout": 0}}}}"#),
        Err(OpenCodeError::Config(m)) if m == "provider.x.timeout: timeout\n"
    ));
    let ok = parse_info(r#"{"provider": {"x": {"options": {"timeout": 250}}}}"#).unwrap();
    assert_eq!(ok.provider.unwrap()[0].1.options.as_ref().unwrap().timeout, Some(Timeout::Millis(250)));
}
