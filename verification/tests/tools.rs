use std::sync::Arc;

use opencode_rust::agent::base::Agent;
use opencode_rust::tool::base::Tool;
use opencode_rust::tool::bash::{BashPlan, BashTool};
use opencode_rust::tool::echo::EchoTool;
use opencode_rust::tool::fs::{DirEntryInfo, FilePlan, ListFilesTool, ReadFileTool, WriteFileTool};
use opencode_rust::tool::web::{WebFetchTool, WebPlan};
use opencode_rust::util::error::OpenCodeError;
use opencode_rust::util::log::{LevelFilter, LogConfig, LogLevel};
use opencode_rust::util::names::sort_unique;
use opencode_rust::util::text::{blank, join, trim};
use opencode_rust::util::time::Duration;

fn strings(items: &[&str]) -> Vec<String> {
    items.iter().map(|item| item.to_string()).collect()
}

#[test]
fn echo_joins_its_arguments() {
    let tool = EchoTool;
    assert_eq!(tool.name(), "echo");
    assert_eq!(tool.description(), "A simple tool that echoes the input back.");
    assert_eq!(tool.execute(&strings(&["a", "b c", ""])).unwrap(), "a b c ");
    assert_eq!(tool.execute(&[]).unwrap(), "");
}

#[test]
fn agent_runs_the_first_tool_of_a_name() {
    let mut agent = Agent::new();
    assert!(agent.tools().is_empty());
    agent.add_tool(Arc::new(EchoTool));
    assert_eq!(agent.tools().len(), 1);
    assert_eq!(agent.run_tool("echo", &strings(&["hi", "there"])).unwrap(), "hi there");
    match agent.run_tool("bash", &[]) {
        Err(error) => {
            assert!(matches!(&error, OpenCodeError::Config(m) if m == "Tool 'bash' not found"));
            assert_eq!(error.to_string(), "Configuration error: Tool 'bash' not found");
        },
        Ok(_) => panic!("expected an error"),
    }
}

#[test]
fn bash_plans_and_reports() {
    let tool = BashTool;
    assert_eq!(tool.name(), "bash");
    assert!(matches!(tool.plan(&[]), BashPlan::Usage(text) if text == "Usage: bash <command> [args...]"));
    match tool.plan(&strings(&["ls", "-l", "/tmp"])) {
        BashPlan::Spawn { command, args } => {
            assert_eq!(command, "ls");
            assert_eq!(args, strings(&["-l", "/tmp"]));
        },
        _ => panic!("expected a command"),
    }
    assert_eq!(tool.render("out", ""), "---STDOUT---\nout");
    assert_eq!(tool.render("", "err"), "---STDERR---\nerr");
    assert_eq!(tool.render("out", "err"), "---STDOUT---\nout\n---STDERR---\nerr");
    assert_eq!(tool.render("", ""), "[Command executed successfully with no output]");
}

#[test]
fn file_tools_plan_and_report() {
    assert!(matches!(ReadFileTool.plan(&[]), FilePlan::Usage(text) if text == "Usage: read_file <path>"));
    assert!(matches!(ReadFileTool.plan(&strings(&["a"])), FilePlan::Read { path } if path == "a"));
    assert!(matches!(
        WriteFileTool.plan(&strings(&["a"])),
        FilePlan::Usage(text) if text == "Usage: write_file <path> <content>"
    ));
    assert!(matches!(
        WriteFileTool.plan(&strings(&["a", "b"])),
        FilePlan::Write { path, content } if path == "a" && content == "b"
    ));
    assert_eq!(WriteFileTool.render("a.txt"), "File a.txt written successfully.");
    assert!(matches!(ListFilesTool.plan(&[]), FilePlan::List { path } if path == "."));
    assert!(matches!(ListFilesTool.plan(&strings(&["src", "x"])), FilePlan::List { path } if path == "src"));
    let entries = vec![
        DirEntryInfo { name: "src".to_string(), is_dir: true },
        DirEntryInfo { name: "Cargo.toml".to_string(), is_dir: false },
    ];
    assert_eq!(ListFilesTool.render(&entries), "src/\nCargo.toml\n");
    assert_eq!(ListFilesTool.render(&[]), "");
    assert_eq!(ReadFileTool.name(), "read_file");
    assert_eq!(WriteFileTool.name(), "write_file");
    assert_eq!(ListFilesTool.name(), "list_files");
}

#[test]
fn web_tool_takes_the_text_of_the_body() {
    let tool = WebFetchTool;
    assert_eq!(tool.name(), "web_fetch");
    assert!(matches!(tool.plan(&[]), WebPlan::Usage(text) if text == "Usage: web_fetch <url>"));
    assert!(matches!(tool.plan(&strings(&["http://x"])), WebPlan::Fetch { url } if url == "http://x"));
    let page = "<html><head><title>T</title></head><body><p>Hello</p><p>World</p></body></html>";
    assert_eq!(tool.render(page), Some("Hello\nWorld".to_string()));
    assert_eq!(tool.body_text(&strings(&["a", "b"])), "a\nb");
}

#[test]
fn text_helpers_follow_unicode_white_space() {
    assert_eq!(trim(" \t\u{a0}\u{3000}x y\u{2028}\n"), "x y");
    assert_eq!(trim("\u{feff}x"), "\u{feff}x");
    assert_eq!(trim(""), "");
    assert!(blank(" \r\n\u{85}"));
    assert!(!blank(" . "));
    assert_eq!(join(&strings(&["a", "", "b"]), ", "), "a, , b");
    assert_eq!(join(&[], ", "), "");
}

#[test]
fn names_sort_by_code_point_and_drop_duplicates() {
    assert_eq!(
        sort_unique(&strings(&["b", "a", "ab", "", "B", "a", "\u{e9}", "z"])),
        strings(&["", "B", "a", "ab", "b", "z", "\u{e9}"])
    );
    assert!(sort_unique(&[]).is_empty());
}

#[test]
fn durations_count_seconds_and_nanoseconds() {
    assert_eq!(Duration::from_millis(2999).as_secs(), 2);
    assert_eq!(Duration::from_millis(2999).subsec_nanos(), 999_000_000);
    assert_eq!(Duration::from_secs(60), Duration::from_millis(60_000));
    assert_eq!(Duration::new(1, 5).subsec_nanos(), 5);
    assert_eq!(Duration::from_millis(u64::MAX).as_secs(), u64::MAX / 1000);
}

#[test]
fn log_levels_map_to_filters() {
    assert_eq!(LogLevel::default(), LogLevel::Info);
    assert_eq!(LogLevel::Debug.as_filter(), LevelFilter::Debug);
    assert_eq!(LogLevel::Warn.as_filter(), LevelFilter::Warn);
    assert_eq!(LogConfig::new(LogLevel::Error.as_filter(), true).level_str(), "error");
    assert_eq!(LogConfig::new(LevelFilter::Off, false).level_str(), "off");
    assert_eq!(LogConfig::new(LevelFilter::Trace, false).level_str(), "trace");
}
