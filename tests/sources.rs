use notabot::config::{Config, SourceConfig};
use notabot::directory::{simple_pattern_match, PendingFiles};
use notabot::json::{read_payload, JsonValue, Payload};
use notabot::sources::{
    build_sources_from_config, on_line, DirectorySource, FileAction, FileSource, FileWatch, Source,
    StdinSource, TcpSource,
};

fn s(t: &str) -> String {
    t.to_string()
}

#[test]
fn test_simple_pattern_match() {
    assert!(simple_pattern_match("event_123.json", "event_*.json"));
    assert!(simple_pattern_match("data.txt", "*.txt"));
    assert!(simple_pattern_match("abc", "abc"));
    assert!(!simple_pattern_match("abc", "abcd"));
    assert!(simple_pattern_match("abcd", "a*d"));
    assert!(simple_pattern_match("axyzd", "a*z*d"));
    assert!(!simple_pattern_match("abcd", "a*z*c"));
    assert!(simple_pattern_match("anything", "*"));
}

#[test]
fn pattern_edge_cases() {
    assert!(simple_pattern_match("", ""));
    assert!(simple_pattern_match("", "*"));
    assert!(simple_pattern_match("", "**"));
    assert!(!simple_pattern_match("a", "a*a"));
    assert!(simple_pattern_match("aa", "a*a"));
    assert!(!simple_pattern_match("ab", "ab*b"));
    assert!(simple_pattern_match("Event.JSON", "*.JSON"));
    assert!(!simple_pattern_match("event.json", "*.JSON"));
    assert!(simple_pattern_match("order_1_buy.json", "*order*buy*"));
}

#[test]
fn queue_dedup_logic_demo() {
    let mut q = PendingFiles::new();
    let f = s("file.json");
    assert!(q.enqueue(f.clone()));
    assert!(q.contains(&f));
    assert!(!q.enqueue(f.clone()));
    assert_eq!(q.len(), 1);
}

#[test]
fn discover_filters_and_keeps_order() {
    let mut q = PendingFiles::new();
    let found = vec![
        (s("d/event_1.json"), s("event_1.json")),
        (s("d/notes.txt"), s("notes.txt")),
        (s("d/event_2.json"), s("event_2.json")),
        (s("d/event_1.json"), s("event_1.json")),
    ];
    assert_eq!(q.discover(found, &Some(s("event_*.json"))), 2);
    assert_eq!(q.discover(vec![(s("d/event_2.json"), s("event_2.json"))], &None), 0);
    assert_eq!(q.pop_front(), Some(s("d/event_1.json")));
    assert_eq!(q.pop_front(), Some(s("d/event_2.json")));
    assert_eq!(q.pop_front(), None);
}

#[test]
fn signature_changes_with_len() {
    assert_eq!(FileSource::new("x".into(), Some(50), Some(false)).poll_ms(), 50);
    assert!(FileSource::new("y".into(), Some(1), None).poll_ms() >= 10);
}

#[test]
fn file_source_defaults() {
    let f = FileSource::new(s("p"), None, None);
    assert_eq!(f.poll_ms(), 100);
    assert!(!f.delete_on_success());
    assert_eq!(f.path(), "p");
    assert_eq!(FileSource::new(s("p"), Some(1), None).poll_ms(), 10);
    assert_eq!(f.name(), "file");
}

#[test]
fn unchanged_file_is_dispatched_once() {
    let mut w = FileWatch::new(false);
    let sig = (12, 1000);
    assert!(w.should_read(sig));
    let p = read_payload("{\"type\":\"x\"}");
    match w.on_payload(sig, p) {
        FileAction::Dispatch { delete_file, .. } => assert!(!delete_file),
        other => panic!("unexpected {:?}", other),
    }
    assert!(!w.should_read(sig));
    assert!(!w.should_read(sig));
    assert!(w.should_read((13, 1000)));
}

#[test]
fn file_watch_with_delete_reads_every_time() {
    let mut w = FileWatch::new(true);
    let sig = (5, 7);
    assert!(w.should_read(sig));
    match w.on_payload(sig, read_payload(" 1 ")) {
        FileAction::Dispatch { event, delete_file } => {
            assert!(delete_file);
            assert_eq!(event, JsonValue::Number(s("1")));
        }
        other => panic!("unexpected {:?}", other),
    }
    assert!(w.should_read(sig));
}

#[test]
fn malformed_and_empty_files_are_not_dispatched() {
    let mut w = FileWatch::new(false);
    let sig = (3, 3);
    assert!(matches!(w.on_payload(sig, read_payload("  \n\t ")), FileAction::Skip));
    assert!(matches!(w.on_payload(sig, read_payload("{oops")), FileAction::Retry { .. }));
    assert!(w.should_read(sig));
}

#[test]
fn directory_source_settings_and_actions() {
    let d = DirectorySource::new(s("in"), Some(s("*.json")), true);
    assert_eq!(d.name(), "directory");
    assert_eq!(d.poll_ms(), 400);
    assert!(d.recursive());
    assert_eq!(d.pattern(), &Some(s("*.json")));
    match d.on_payload(read_payload("[true]")) {
        FileAction::Dispatch { event, delete_file } => {
            assert!(delete_file);
            assert_eq!(event, JsonValue::Array(vec![JsonValue::Bool(true)]));
        }
        other => panic!("unexpected {:?}", other),
    }
    assert!(matches!(d.on_payload(read_payload("nope")), FileAction::Retry { .. }));
}

#[test]
fn test_name_and_new() {
    let s = StdinSource::new();
    assert_eq!(s.name(), "stdin");
}

#[test]
fn test_constructor() {
    let src = TcpSource::new("127.0.0.1:5000".into(), true);
    assert_eq!(src.name(), "tcp");
    assert_eq!(src.bind(), "127.0.0.1:5000");
    assert!(src.ack());
}

#[test]
fn test_rejects_invalid_json_line() {
    let bad = on_line(read_payload("{invalid json}\n"), true);
    assert!(bad.event.is_none());
    let reply = bad.reply.unwrap();
    assert!(reply.starts_with("ERROR "));
    assert!(reply.ends_with('\n'));
    assert_eq!(reply.matches('\n').count(), 1);

    let good = on_line(read_payload("{\"type\":\"x\"}\n"), true);
    assert_eq!(good.reply, Some(s("OK\n")));
    let event = good.event.unwrap();
    assert_eq!(event.get("type").and_then(|v| v.as_str()), Some("x"));
}

#[test]
fn lines_without_ack_get_no_reply() {
    let bad = on_line(read_payload("not json"), false);
    assert!(bad.event.is_none() && bad.reply.is_none());
    let empty = on_line(read_payload("   \r\n"), true);
    assert!(empty.event.is_none() && empty.reply.is_none());
    let good = on_line(read_payload("null"), false);
    assert_eq!(good.event, Some(JsonValue::Null));
    assert!(good.reply.is_none());
}

#[test]
fn payload_parsing() {
    assert!(matches!(read_payload(""), Payload::Empty));
    match read_payload("  {\"a\": [1, \"b\"]}  ") {
        Payload::Event { value } => assert_eq!(
            value,
            JsonValue::Object(vec![(
                s("a"),
                JsonValue::Array(vec![JsonValue::Number(s("1")), JsonValue::Str(s("b"))])
            )])
        ),
        other => panic!("unexpected {:?}", other),
    }
    match read_payload("{\"a\":") {
        Payload::Malformed { error } => assert!(!error.is_empty()),
        other => panic!("unexpected {:?}", other),
    }
}

#[test]
fn sources_are_built_in_config_order() {
    let mut cfg = Config::default();
    cfg.sources.push(SourceConfig::Tcp { bind: s("0.0.0.0:1"), ack: None });
    cfg.sources.push(SourceConfig::Stdin);
    cfg.sources.push(SourceConfig::File { path: s("f"), poll_ms: Some(3), delete_on_success: Some(true) });
    cfg.sources.push(SourceConfig::Directory { path: s("d"), pattern: None, recursive: None });
    let built = build_sources_from_config(&cfg);
    assert_eq!(built.len(), 4);
    match &built[0] {
        Source::Tcp(t) => assert!(t.ack()),
        other => panic!("unexpected {:?}", other),
    }
    assert!(matches!(built[1], Source::Stdin(_)));
    match &built[2] {
        Source::File(f) => {
            assert_eq!(f.poll_ms(), 10);
            assert!(f.delete_on_success());
        }
        other => panic!("unexpected {:?}", other),
    }
    match &built[3] {
        Source::Directory(d) => {
            assert!(!d.recursive());
            assert_eq!(d.pattern(), &None);
        }
        other => panic!("unexpected {:?}", other),
    }
}
