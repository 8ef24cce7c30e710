use opencode_rust::util::config::{Info, WatcherSettings};
use opencode_rust::watcher::{
    glob_match_segments, glob_matches, map_event, normalize_path, segment_matches, select_path,
    FileEventKind, IgnoreMatcher, WatchEvent, WatchEventKind, WatchOptions, WatchPath,
};

fn parts(path: &str) -> Vec<Option<String>> {
    path.split('/').filter(|part| !part.is_empty()).map(|part| Some(part.to_string())).collect()
}

fn watch_path(path: &str, exists: bool) -> WatchPath {
    WatchPath { text: path.to_string(), parts: parts(path), exists }
}

fn matcher(extra: &[&str]) -> IgnoreMatcher {
    let extra: Vec<String> = extra.iter().map(|pattern| pattern.to_string()).collect();
    IgnoreMatcher::new(parts("/work/project"), &extra)
}

fn strings(items: &[&str]) -> Vec<String> {
    items.iter().map(|item| item.to_string()).collect()
}

#[test]
fn segment_patterns_match_bytes() {
    assert!(segment_matches("*.log", "debug.log"));
    assert!(segment_matches("*", ""));
    assert!(segment_matches("a*b*c", "aXXbYYbc"));
    assert!(!segment_matches("a*b*c", "aXXbYYb"));
    assert!(segment_matches("?.rs", "a.rs"));
    assert!(!segment_matches("?.rs", ".rs"));
    assert!(!segment_matches("?.rs", "\u{e9}.rs"));
    assert!(segment_matches("??.rs", "\u{e9}.rs"));
    assert!(segment_matches("", ""));
    assert!(!segment_matches("", "a"));
    assert!(segment_matches("**", "anything"));
    assert!(!segment_matches("abc", "abd"));
}

#[test]
fn glob_patterns_match_whole_paths() {
    assert!(glob_matches("**/*.log", "debug.log"));
    assert!(glob_matches("**/*.log", "a/b/debug.log"));
    assert!(!glob_matches("**/*.log", "a/b/debug.txt"));
    assert!(glob_matches("**/logs/**", "a/logs/x/y"));
    assert!(glob_matches("**/logs/**", "logs"));
    assert!(!glob_matches("**/logs/**", "a/log/x"));
    assert!(glob_matches("src\\*.rs", "src/main.rs"));
    assert!(!glob_matches("src/*.rs", "src/a/main.rs"));
    assert!(glob_matches("/src//main.rs/", "src/main.rs"));
    assert!(!glob_matches("src/main.rs", "src//main.rs"));
    assert!(glob_matches("**", ""));
    assert!(!glob_matches("", "a"));
    assert!(glob_matches("a/**/b", "a/b"));
    assert!(glob_matches("a/**/b", "a/x/y/b"));
    assert!(!glob_matches("a/**/b", "a/x/y/c"));
    assert!(glob_match_segments(&strings(&["a", "**"]), &strings(&["x", "a", "q"]), 0, 1));
    assert!(!glob_match_segments(&strings(&["a", "**"]), &strings(&["x", "a", "q"]), 0, 0));
}

#[test]
fn paths_are_normalized_with_slashes() {
    assert_eq!(normalize_path(&parts("a/b/c.txt")), Some("a/b/c.txt".to_string()));
    assert_eq!(
        normalize_path(&[Some("a\\b".to_string()), Some("c".to_string())]),
        Some("a/b/c".to_string())
    );
    assert_eq!(normalize_path(&[]), Some(String::new()));
    assert_eq!(normalize_path(&[Some("a".to_string()), None]), None);
}

#[test]
fn matcher_ignores_folders_and_patterns_below_the_root() {
    let matcher = matcher(&["**/*.tmp"]);
    assert!(matcher.matches(&parts("/work/project/node_modules/ignored.txt")));
    assert!(matcher.matches(&parts("/work/project/debug.log")));
    assert!(matcher.matches(&parts("/work/project/ignored.tmp")));
    assert!(matcher.matches(&parts("/work/project/a/tmp/b")));
    assert!(!matcher.matches(&parts("/work/project/tracked.txt")));
    assert!(!matcher.matches(&parts("/work/project")));
    assert!(!matcher.matches(&parts("/elsewhere/tracked.txt")));
    assert!(matcher.matches(&parts("/elsewhere/target/x")));
    assert!(!matcher.matches(&[Some("work".to_string()), None]));
}

#[test]
fn events_map_to_the_last_kept_path() {
    let matcher = matcher(&[]);
    let event = WatchEvent {
        kind: WatchEventKind::Modify,
        paths: vec![
            watch_path("/work/project/a.txt", true),
            watch_path("/work/project/b.txt", true),
            watch_path("/work/project/x.log", true),
        ],
    };
    assert_eq!(select_path(&event, &matcher), Some(1));
    let reported = map_event(&event, &matcher).unwrap();
    assert_eq!(reported.path, "/work/project/b.txt");
    assert_eq!(reported.kind, FileEventKind::Modified);

    let ignored = WatchEvent {
        kind: WatchEventKind::Create,
        paths: vec![watch_path("/work/project/target/out", true)],
    };
    assert_eq!(select_path(&ignored, &matcher), None);
    assert!(map_event(&ignored, &matcher).is_none());
}

#[test]
fn event_kinds_map_by_the_table() {
    let matcher = matcher(&[]);
    let cases = [
        (WatchEventKind::Create, true, Some(FileEventKind::Created)),
        (WatchEventKind::Create, false, Some(FileEventKind::Created)),
        (WatchEventKind::RenameFrom, true, Some(FileEventKind::Deleted)),
        (WatchEventKind::RenameTo, false, Some(FileEventKind::Created)),
        (WatchEventKind::RenameOther, true, Some(FileEventKind::Modified)),
        (WatchEventKind::RenameOther, false, Some(FileEventKind::Deleted)),
        (WatchEventKind::Modify, true, Some(FileEventKind::Modified)),
        (WatchEventKind::Modify, false, Some(FileEventKind::Deleted)),
        (WatchEventKind::Remove, true, Some(FileEventKind::Deleted)),
        (WatchEventKind::Other, true, None),
    ];
    for (kind, exists, expected) in cases {
        let event = WatchEvent { kind, paths: vec![watch_path("/work/project/f", exists)] };
        assert_eq!(map_event(&event, &matcher).map(|reported| reported.kind), expected);
    }
}

#[test]
fn options_take_patterns_from_configuration() {
    let mut info = Info::default();
    info.watcher = Some(WatcherSettings { ignore: strings(&["**/*.tmp"]) });
    assert_eq!(WatchOptions::from_info(&info).ignore, strings(&["**/*.tmp"]));
    assert!(WatchOptions::from_info(&Info::default()).ignore.is_empty());
    assert_eq!(WatchOptions::with_ignore(strings(&["a"])).ignore, strings(&["a"]));
    assert!(WatchOptions::default().ignore.is_empty());
}
