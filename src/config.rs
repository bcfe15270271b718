//! The configuration model: sources, named actions, workflows, event bindings and
//! globals, and the check that every reference in it resolves.
use vstd::prelude::*;
use crate::json::JsonValue;
use crate::table::Table;

verus! {

/// A rectangle on screen.
#[derive(Clone, Copy, Debug, PartialEq, Eq, Structural)]
pub struct Rect {
    pub x: i32,
    pub y: i32,
    pub width: i32,
    pub height: i32,
}

/// A mouse button.
#[derive(Clone, Copy, Debug, PartialEq, Eq, Structural)]
pub enum MouseButton {
    Left,
    Middle,
    Right,
}

/// The level of a log message.
#[derive(Clone, Copy, Debug, PartialEq, Eq, Structural)]
pub enum LogLevel {
    Trace,
    Debug,
    Info,
    Warn,
    Error,
}

/// Connects an event type to a workflow, and says which event field (a dotted path)
/// seeds which workflow variable.
#[derive(Debug)]
pub struct EventBinding {
    pub workflow: String,
    pub vars_map: Table<String>,
}

/// One configured event source.
#[derive(Debug)]
pub enum SourceConfig {
    /// Polls one file.
    File { path: String, poll_ms: Option<u64>, delete_on_success: Option<bool> },
    /// Polls a directory for files.
    Directory { path: String, pattern: Option<String>, recursive: Option<bool> },
    /// Listens on a TCP address for newline-delimited JSON.
    Tcp { bind: String, ack: Option<bool> },
    /// Reads newline-delimited JSON from standard input.
    Stdin,
}

/// One step of a workflow. Every string field is interpolated when the step runs.
#[derive(Debug)]
pub enum ActionDef {
    /// Runs the steps in order, stopping at the first that fails.
    Sequence { steps: Vec<ActionDef> },
    /// Runs the named action.
    Ref { name: String },
    MouseMove { x: i32, y: i32 },
    MouseClick { button: MouseButton, count: Option<u8> },
    MouseScroll { delta_x: i32, delta_y: i32 },
    KeySeq { text: String },
    TypeText { text: String },
    SleepMs { ms: u64 },
    SleepRandMs { min: u64, max: u64 },
    FocusWindow { title_contains: String },
    /// Sets a workflow variable.
    SetVar { name: String, value: String },
    /// Runs `then` when `when` and `equals` interpolate to the same text, else `else_`.
    Conditional {
        when: String,
        equals: String,
        then: Box<ActionDef>,
        else_: Option<Box<ActionDef>>,
    },
    Log { level: LogLevel, message: String },
    OcrCheck { region: Option<Rect>, must_contain: String },
    CaptureScreen { path: String, region: Option<Rect> },
}

/// The whole configuration.
#[derive(Debug)]
pub struct Config {
    pub sources: Vec<SourceConfig>,
    pub actions: Table<ActionDef>,
    pub workflows: Table<Vec<ActionDef>>,
    pub events: Table<EventBinding>,
    pub globals: Table<JsonValue>,
}

impl Default for Config {
    fn default() -> (r: Config)
        ensures
            r.sources@.len() == 0,
            r.actions@ == Map::<Seq<char>, ActionDef>::empty(),
            r.workflows@ == Map::<Seq<char>, Vec<ActionDef>>::empty(),
            r.events@ == Map::<Seq<char>, EventBinding>::empty(),
            r.globals@ == Map::<Seq<char>, JsonValue>::empty(),
            r.actions.entries@.len() == 0,
            r.workflows.entries@.len() == 0,
            r.events.entries@.len() == 0,
            r.globals.entries@.len() == 0,
    {
        Config {
            sources: Vec::new(),
            actions: Table::new(),
            workflows: Table::new(),
            events: Table::new(),
            globals: Table::new(),
        }
    }
}

/// Where a reference stands in the configuration.
#[derive(Debug)]
pub enum RefSite {
    NamedAction { name: String },
    WorkflowStep { workflow: String, step: usize },
}

/// A configuration whose references do not resolve.
#[derive(Debug)]
pub enum ConfigError {
    /// An event binding names a workflow that does not exist.
    MissingWorkflow { event: String, workflow: String },
    /// A reference names an action that does not exist.
    MissingAction { site: RefSite, name: String },
}

/// Every reference inside `a` names an action of `names`.
pub open spec fn refs_resolve(a: ActionDef, names: Map<Seq<char>, ActionDef>) -> bool
    decreases a,
{
    match a {
        ActionDef::Ref { name } => names.contains_key(name@),
        ActionDef::Sequence { steps } => steps_resolve(steps@, names),
        ActionDef::Conditional { then, else_, .. } => refs_resolve(*then, names) && match else_ {
            Some(e) => refs_resolve(*e, names),
            None => true,
        },
        _ => true,
    }
}

/// Every reference inside each of `steps` names an action of `names`.
pub open spec fn steps_resolve(steps: Seq<ActionDef>, names: Map<Seq<char>, ActionDef>) -> bool
    decreases steps,
{
    steps.len() > 0 ==> steps_resolve(steps.drop_last(), names) && refs_resolve(steps.last(), names)
}

proof fn lemma_steps_resolve(steps: Seq<ActionDef>, names: Map<Seq<char>, ActionDef>)
    ensures
        steps_resolve(steps, names) <==> forall|i: int|
            0 <= i < steps.len() ==> #[trigger] refs_resolve(steps[i], names),
    decreases steps.len(),
{
    if steps.len() > 0 {
        let d = steps.drop_last();
        lemma_steps_resolve(d, names);
        assert(refs_resolve(steps.last(), names) == refs_resolve(steps[steps.len() - 1], names));
        if forall|i: int| 0 <= i < steps.len() ==> #[trigger] refs_resolve(steps[i], names) {
            assert forall|i: int| 0 <= i < d.len() implies #[trigger] refs_resolve(d[i], names) by {
                assert(d[i] == steps[i]);
            }
        }
        if steps_resolve(steps, names) {
            assert forall|i: int| 0 <= i < steps.len() implies #[trigger] refs_resolve(
                steps[i],
                names,
            ) by {
                if i < steps.len() - 1 {
                    assert(d[i] == steps[i]);
                }
            }
        }
    }
}

/// Checks that every reference inside `action` names an action of `names`; the error
/// gives the first that does not.
pub fn validate_action_refs(action: &ActionDef, names: &Table<ActionDef>) -> (r: Result<(), String>)
    ensures
        r is Ok <==> refs_resolve(*action, names@),
        r matches Err(n) ==> !names@.contains_key(n@),
    decreases action,
{
    match action {
        ActionDef::Ref { name } => {
            if names.contains_key(name.as_str()) {
                Ok(())
            } else {
                Err(name.clone())
            }
        },
        ActionDef::Sequence { steps } => {
            let mut i: usize = 0;
            while i < steps.len()
                invariant
                    *action == (ActionDef::Sequence { steps: *steps }),
                    i <= steps@.len(),
                    forall|j: int| 0 <= j < i ==> #[trigger] refs_resolve(steps@[j], names@),
                decreases steps@.len() - i,
            {
                proof {
                    let ghost a = *action;
                    assert(decreases_to!(a => a->Sequence_steps));
                    vstd::std_specs::vec::axiom_vec_index_decreases(*steps, i as int);
                }
                match validate_action_refs(&steps[i], names) {
                    Ok(()) => {},
                    Err(n) => {
                        proof {
                            lemma_steps_resolve(steps@, names@);
                        }
                        return Err(n);
                    },
                }
                i = i + 1;
            }
            proof {
                lemma_steps_resolve(steps@, names@);
            }
            Ok(())
        },
        ActionDef::Conditional { then, else_, .. } => {
            match validate_action_refs(then, names) {
                Ok(()) => {},
                Err(n) => {
                    return Err(n);
                },
            }
            match else_ {
                Some(e) => validate_action_refs(e, names),
                None => Ok(()),
            }
        },
        _ => Ok(()),
    }
}

/// Every event binds an existing workflow, and every reference in a named action or a
/// workflow step names an existing action.
pub open spec fn config_valid(cfg: Config) -> bool {
    &&& forall|i: int|
        0 <= i < cfg.events.entries@.len() ==> cfg.workflows@.contains_key(
            #[trigger] cfg.events.entries@[i].1.workflow@,
        )
    &&& forall|i: int|
        0 <= i < cfg.actions.entries@.len() ==> refs_resolve(
            #[trigger] cfg.actions.entries@[i].1,
            cfg.actions@,
        )
    &&& forall|i: int, j: int|
        0 <= i < cfg.workflows.entries@.len() && 0 <= j < cfg.workflows.entries@[i].1@.len()
            ==> refs_resolve(#[trigger] cfg.workflows.entries@[i].1@[j], cfg.actions@)
}

/// Checks the configuration's references: event bindings first, then named actions,
/// then workflow steps, each in table order; the error names the first that fails.
pub fn validate_config(cfg: &Config) -> (r: Result<(), ConfigError>)
    ensures
        r is Ok <==> config_valid(*cfg),
        r matches Err(ConfigError::MissingWorkflow { event, workflow }) ==> cfg.events@.contains_key(
            event@,
        ) && !cfg.workflows@.contains_key(workflow@),
        r matches Err(ConfigError::MissingAction { name, .. }) ==> !cfg.actions@.contains_key(name@),
{
    let mut i: usize = 0;
    while i < cfg.events.entries.len()
        invariant
            i <= cfg.events.entries@.len(),
            forall|k: int|
                0 <= k < i ==> cfg.workflows@.contains_key(
                    #[trigger] cfg.events.entries@[k].1.workflow@,
                ),
        decreases cfg.events.entries@.len() - i,
    {
        let (event, binding) = &cfg.events.entries[i];
        if !cfg.workflows.contains_key(binding.workflow.as_str()) {
            proof {
                crate::table::lemma_entry_key_in_map(cfg.events.entries@, i as int);
            }
            return Err(
                ConfigError::MissingWorkflow {
                    event: event.clone(),
                    workflow: binding.workflow.clone(),
                },
            );
        }
        i = i + 1;
    }
    let mut i: usize = 0;
    while i < cfg.actions.entries.len()
        invariant
            i <= cfg.actions.entries@.len(),
            forall|k: int|
                0 <= k < cfg.events.entries@.len() ==> cfg.workflows@.contains_key(
                    #[trigger] cfg.events.entries@[k].1.workflow@,
                ),
            forall|k: int|
                0 <= k < i ==> refs_resolve(#[trigger] cfg.actions.entries@[k].1, cfg.actions@),
        decreases cfg.actions.entries@.len() - i,
    {
        let (name, action) = &cfg.actions.entries[i];
        match validate_action_refs(action, &cfg.actions) {
            Ok(()) => {},
            Err(n) => {
                return Err(
                    ConfigError::MissingAction {
                        site: RefSite::NamedAction { name: name.clone() },
                        name: n,
                    },
                );
            },
        }
        i = i + 1;
    }
    let mut i: usize = 0;
    while i < cfg.workflows.entries.len()
        invariant
            i <= cfg.workflows.entries@.len(),
            forall|k: int|
                0 <= k < cfg.events.entries@.len() ==> cfg.workflows@.contains_key(
                    #[trigger] cfg.events.entries@[k].1.workflow@,
                ),
            forall|k: int|
                0 <= k < cfg.actions.entries@.len() ==> refs_resolve(
                    #[trigger] cfg.actions.entries@[k].1,
                    cfg.actions@,
                ),
            forall|k: int, j: int|
                0 <= k < i && 0 <= j < cfg.workflows.entries@[k].1@.len() ==> refs_resolve(
                    #[trigger] cfg.workflows.entries@[k].1@[j],
                    cfg.actions@,
                ),
        decreases cfg.workflows.entries@.len() - i,
    {
        let (wf_name, steps) = &cfg.workflows.entries[i];
        let mut j: usize = 0;
        while j < steps.len()
            invariant
                i < cfg.workflows.entries@.len(),
                *steps == cfg.workflows.entries@[i as int].1,
                j <= steps@.len(),
                forall|t: int| 0 <= t < j ==> refs_resolve(#[trigger] steps@[t], cfg.actions@),
            decreases steps@.len() - j,
        {
            match validate_action_refs(&steps[j], &cfg.actions) {
                Ok(()) => {},
                Err(n) => {
                    return Err(
                        ConfigError::MissingAction {
                            site: RefSite::WorkflowStep { workflow: wf_name.clone(), step: j },
                            name: n,
                        },
                    );
                },
            }
            j = j + 1;
        }
        i = i + 1;
    }
    validate_with_schema_placeholder(cfg)
}

/// The place for a schema check beyond the reference checks; it accepts every
/// configuration.
pub fn validate_with_schema_placeholder(config: &Config) -> (r: Result<(), ConfigError>)
    ensures
        r is Ok,
{
    Ok(())
}

} // verus!
