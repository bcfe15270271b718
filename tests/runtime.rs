use notabot::config::{ActionDef, Config, EventBinding, LogLevel, MouseButton};
use notabot::json::JsonValue;
use notabot::runtime::{get_json_path, Command, ExecError, RunError, Runtime};
use notabot::table::Table;

fn s(t: &str) -> String {
    t.to_string()
}

fn obj(fields: Vec<(&str, JsonValue)>) -> JsonValue {
    JsonValue::Object(fields.into_iter().map(|(k, v)| (k.to_string(), v)).collect())
}

fn log(message: &str) -> ActionDef {
    ActionDef::Log { level: LogLevel::Info, message: s(message) }
}

#[test]
fn test_get_json_path() {
    let v = obj(vec![("a", obj(vec![("b", obj(vec![("c", JsonValue::Str(s("ok")))]))]))]);
    assert_eq!(get_json_path(&v, "a.b.c"), Some(&JsonValue::Str(s("ok"))));
    assert!(get_json_path(&v, "a.b.x").is_none());
    assert!(get_json_path(&v, "a.b.c.d").is_none());
}

#[test]
fn test_vars_from_event() {
    let mut cfg = Config::default();
    cfg.workflows.insert(s("wf"), vec![]);
    let mut vars_map = Table::new();
    vars_map.insert(s("name"), s("user.name"));
    vars_map.insert(s("age"), s("user.age"));
    vars_map.insert(s("missing"), s("not.there"));
    let binding = EventBinding { workflow: s("wf"), vars_map };
    let event = obj(vec![
        ("type", JsonValue::Str(s("x"))),
        ("user", obj(vec![("name", JsonValue::Str(s("Zied"))), ("age", JsonValue::Number(s("33")))])),
    ]);

    let rt = Runtime::new(cfg, true);
    let vars = rt.vars_from_event(&binding, &event).unwrap();
    assert_eq!(vars.get("name").unwrap(), "Zied");
    assert_eq!(vars.get("age").unwrap(), "33");
    assert_eq!(vars.get("missing").unwrap(), "");
}

#[test]
fn test_interp_with_globals() {
    let mut cfg = Config::default();
    cfg.globals.insert(s("app"), JsonValue::Str(s("Notabot")));
    let rt = Runtime::new(cfg, true);
    let mut vars = Table::new();
    vars.insert(s("user"), s("Alice"));

    let out = rt.interp("Hi {{user}} from {{@app}}", &vars);
    assert_eq!(out, "Hi Alice from Notabot");
}

#[test]
fn test_workflow_runs_empty_sequence() {
    let mut cfg = Config::default();
    cfg.workflows.insert(s("empty"), vec![]);
    let rt = Runtime::new(cfg, true);
    let run = rt.execute_workflow("empty", Table::new());
    run.outcome.unwrap();
    assert!(run.commands.is_empty());
}

#[test]
fn test_conditional_equal_branch() {
    let mut cfg = Config::default();
    cfg.workflows.insert(
        s("wf"),
        vec![ActionDef::Conditional {
            when: s("{{x}}"),
            equals: s("yes"),
            then: Box::new(log("OK")),
            else_: None,
        }],
    );
    let rt = Runtime::new(cfg, true);
    let mut vars = Table::new();
    vars.insert(s("x"), s("yes"));
    let run = rt.execute_workflow("wf", vars);
    run.outcome.unwrap();
    assert_eq!(run.commands, vec![Command::Log { level: LogLevel::Info, message: s("OK") }]);
}

fn conditional_config() -> Config {
    let mut cfg = Config::default();
    cfg.workflows.insert(
        s("wf"),
        vec![ActionDef::Conditional {
            when: s("{{x}}"),
            equals: s("yes"),
            then: Box::new(log("OK")),
            else_: None,
        }],
    );
    let mut vars_map = Table::new();
    vars_map.insert(s("x"), s("flag"));
    cfg.events.insert(s("t"), EventBinding { workflow: s("wf"), vars_map });
    cfg
}

#[test]
fn event_drives_conditional_branch() {
    let rt = Runtime::new(conditional_config(), true);
    let yes = obj(vec![("type", JsonValue::Str(s("t"))), ("flag", JsonValue::Str(s("yes")))]);
    let run = rt.run_event(&yes);
    assert_eq!(run.outcome, Ok(()));
    assert_eq!(run.commands, vec![Command::Log { level: LogLevel::Info, message: s("OK") }]);

    let no = obj(vec![("type", JsonValue::Str(s("t"))), ("flag", JsonValue::Str(s("no")))]);
    let run = rt.run_event(&no);
    assert_eq!(run.outcome, Ok(()));
    assert!(run.commands.is_empty());
}

#[test]
fn routing_errors() {
    let rt = Runtime::new(conditional_config(), true);
    let untyped = obj(vec![("flag", JsonValue::Str(s("yes")))]);
    assert_eq!(rt.run_event(&untyped).outcome, Err(RunError::MissingEventType));
    let numeric_type = obj(vec![("type", JsonValue::Number(s("3")))]);
    assert_eq!(rt.run_event(&numeric_type).outcome, Err(RunError::MissingEventType));
    let unknown = obj(vec![("type", JsonValue::Str(s("zzz")))]);
    assert_eq!(
        rt.run_event(&unknown).outcome,
        Err(RunError::NoBinding { event_type: s("zzz") })
    );
    assert_eq!(
        rt.run_workflow_by_name("nope", Table::new()).outcome,
        Err(RunError::UnknownWorkflow { name: s("nope") })
    );
}

#[test]
fn reference_cycle_fails_with_depth_error() {
    let mut cfg = Config::default();
    cfg.actions.insert(s("A"), ActionDef::Ref { name: s("B") });
    cfg.actions.insert(s("B"), ActionDef::Ref { name: s("A") });
    cfg.workflows.insert(s("wf"), vec![log("before"), ActionDef::Ref { name: s("A") }, log("after")]);
    let rt = Runtime::new(cfg, false);
    let run = rt.run_workflow_by_name("wf", Table::new());
    assert_eq!(
        run.outcome,
        Err(RunError::StepFailed { workflow: s("wf"), step: 1, error: ExecError::MaxDepthExceeded })
    );
    assert_eq!(run.commands, vec![Command::Log { level: LogLevel::Info, message: s("before") }]);
}

#[test]
fn unresolved_reference_stops_the_sequence() {
    let mut cfg = Config::default();
    cfg.workflows.insert(
        s("wf"),
        vec![ActionDef::Sequence {
            steps: vec![
                ActionDef::MouseMove { x: 1, y: 2 },
                ActionDef::Ref { name: s("ghost") },
                ActionDef::MouseClick { button: MouseButton::Left, count: None },
            ],
        }],
    );
    let rt = Runtime::new(cfg, true);
    let run = rt.run_workflow_by_name("wf", Table::new());
    assert_eq!(
        run.outcome,
        Err(RunError::StepFailed {
            workflow: s("wf"),
            step: 0,
            error: ExecError::UnresolvedReference { name: s("ghost") },
        })
    );
    assert_eq!(run.commands, vec![Command::MoveTo { x: 1, y: 2 }]);
}

#[test]
fn set_var_is_seen_by_later_steps_and_refs() {
    let mut cfg = Config::default();
    cfg.globals.insert(s("who"), JsonValue::Str(s("Bob")));
    cfg.actions.insert(s("greet"), ActionDef::TypeText { text: s("{{greeting}} {{@who}}") });
    cfg.workflows.insert(
        s("wf"),
        vec![
            ActionDef::SetVar { name: s("greet{{n}}"), value: s("Hello") },
            ActionDef::SetVar { name: s("greeting"), value: s("{{greet1}}!") },
            ActionDef::Ref { name: s("greet") },
            ActionDef::KeySeq { text: s("{{missing}}") },
        ],
    );
    let rt = Runtime::new(cfg, true);
    let mut vars = Table::new();
    vars.insert(s("n"), s("1"));
    let run = rt.run_workflow_by_name("wf", vars);
    assert_eq!(run.outcome, Ok(()));
    assert_eq!(
        run.commands,
        vec![
            Command::TypeText { text: s("Hello! Bob") },
            Command::SendKeys { text: s("{{missing}}") },
        ]
    );
}

#[test]
fn conditional_else_branch_and_dry_run_flag() {
    let mut cfg = Config::default();
    cfg.workflows.insert(
        s("wf"),
        vec![ActionDef::Conditional {
            when: s("a"),
            equals: s("b"),
            then: Box::new(ActionDef::SleepMs { ms: 5 }),
            else_: Some(Box::new(ActionDef::SleepRandMs { min: 9, max: 3 })),
        }],
    );
    let mut rt = Runtime::new(cfg, true);
    assert!(rt.is_dry_run());
    rt.set_dry_run(false);
    assert!(!rt.is_dry_run());
    let run = rt.run_workflow_by_name("wf", Table::new());
    assert_eq!(run.commands, vec![Command::SleepRandom { min: 9, max: 3 }]);
}
