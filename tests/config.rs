use notabot::capability::{click_count, sleep_bounds, sleep_delay};
use notabot::config::{validate_config, ActionDef, Config, ConfigError, EventBinding, LogLevel, RefSite};
use notabot::table::Table;
use notabot::version;
use notabot::window::focus_window;

fn s(t: &str) -> String {
    t.to_string()
}

#[test]
fn valid_config_passes() {
    let mut cfg = Config::default();
    cfg.actions.insert(s("hello"), ActionDef::Log { level: LogLevel::Info, message: s("hi") });
    cfg.workflows.insert(s("wf"), vec![ActionDef::Ref { name: s("hello") }]);
    cfg.events.insert(s("t"), EventBinding { workflow: s("wf"), vars_map: Table::new() });
    assert!(validate_config(&cfg).is_ok());
}

#[test]
fn binding_to_missing_workflow_is_rejected() {
    let mut cfg = Config::default();
    cfg.events.insert(s("t"), EventBinding { workflow: s("nowhere"), vars_map: Table::new() });
    match validate_config(&cfg) {
        Err(ConfigError::MissingWorkflow { event, workflow }) => {
            assert_eq!(event, "t");
            assert_eq!(workflow, "nowhere");
        }
        other => panic!("unexpected {:?}", other),
    }
}

#[test]
fn nested_missing_reference_is_rejected() {
    let mut cfg = Config::default();
    cfg.workflows.insert(
        s("wf"),
        vec![
            ActionDef::SleepMs { ms: 1 },
            ActionDef::Conditional {
                when: s("a"),
                equals: s("a"),
                then: Box::new(ActionDef::Sequence { steps: vec![] }),
                else_: Some(Box::new(ActionDef::Sequence {
                    steps: vec![ActionDef::Ref { name: s("gone") }],
                })),
            },
        ],
    );
    match validate_config(&cfg) {
        Err(ConfigError::MissingAction { site: RefSite::WorkflowStep { workflow, step }, name }) => {
            assert_eq!(workflow, "wf");
            assert_eq!(step, 1);
            assert_eq!(name, "gone");
        }
        other => panic!("unexpected {:?}", other),
    }
}

#[test]
fn named_action_with_missing_reference_is_rejected() {
    let mut cfg = Config::default();
    cfg.actions.insert(s("a"), ActionDef::Ref { name: s("b") });
    match validate_config(&cfg) {
        Err(ConfigError::MissingAction { site: RefSite::NamedAction { name: site }, name }) => {
            assert_eq!(site, "a");
            assert_eq!(name, "b");
        }
        other => panic!("unexpected {:?}", other),
    }
}

#[test]
fn table_insert_replaces() {
    let mut t = Table::new();
    t.insert(s("k"), 1u32);
    t.insert(s("j"), 2u32);
    t.insert(s("k"), 3u32);
    assert_eq!(t.len(), 2);
    assert_eq!(t.get("k"), Some(&3));
    assert_eq!(t.get("j"), Some(&2));
    assert_eq!(t.get("x"), None);
    assert!(t.contains_key("j"));
}

#[test]
fn capability_rules() {
    assert_eq!(click_count(None), 1);
    assert_eq!(click_count(Some(0)), 1);
    assert_eq!(click_count(Some(3)), 3);
    assert_eq!(sleep_bounds(9, 3), (3, 9));
    assert_eq!(sleep_delay(4, 4), 4);
    for _ in 0..50 {
        let d = sleep_delay(10, 5);
        assert!((5..=10).contains(&d));
    }
}

#[test]
fn version_and_window() {
    assert_eq!(version(), "0.1.0");
    assert_eq!(focus_window("Notepad"), Ok(false));
}

#[test]
fn random_sleep_varies_within_bounds() {
    let draws: Vec<u64> = (0..200).map(|_| sleep_delay(0, 1000)).collect();
    assert!(draws.iter().all(|d| *d <= 1000));
    assert!(draws.iter().any(|d| *d != draws[0]));
}
