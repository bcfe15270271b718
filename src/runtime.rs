//! The workflow interpreter and the event router.
//!
//! Running a workflow yields the effects that its actions ask of the capability
//! provider, in order, followed by how the run ended. Effects never feed back into the
//! interpreter: a failing effect ends the run at that point, and so its caller performs
//! the effects one by one and stops at the first that fails.
use vstd::prelude::*;
use crate::config::{ActionDef, Config, EventBinding, LogLevel, MouseButton, Rect};
use crate::interpolation::{interp, interpolate_string};
use crate::json::{JsonValue, display_text, field_of};
use crate::table::{Table, entries_map};
use crate::text::{split_char, split_spec};

verus! {

/// How deeply actions may nest at run time, references included.
pub const MAX_DEPTH: usize = 64;

/// One request to the capability provider, its strings already interpolated.
#[derive(Debug, PartialEq)]
pub enum Command {
    MoveTo { x: i32, y: i32 },
    Click { button: MouseButton, count: Option<u8> },
    Scroll { delta_x: i32, delta_y: i32 },
    SendKeys { text: String },
    TypeText { text: String },
    Sleep { ms: u64 },
    SleepRandom { min: u64, max: u64 },
    FocusWindow { title_contains: String },
    Log { level: LogLevel, message: String },
    OcrCheck { region: Option<Rect>, must_contain: String },
    CaptureScreen { path: String, region: Option<Rect> },
}

/// A command with its strings as character sequences.
pub enum CommandView {
    MoveTo { x: i32, y: i32 },
    Click { button: MouseButton, count: Option<u8> },
    Scroll { delta_x: i32, delta_y: i32 },
    SendKeys { text: Seq<char> },
    TypeText { text: Seq<char> },
    Sleep { ms: u64 },
    SleepRandom { min: u64, max: u64 },
    FocusWindow { title_contains: Seq<char> },
    Log { level: LogLevel, message: Seq<char> },
    OcrCheck { region: Option<Rect>, must_contain: Seq<char> },
    CaptureScreen { path: Seq<char>, region: Option<Rect> },
}

impl View for Command {
    type V = CommandView;

    open spec fn view(&self) -> CommandView {
        match *self {
            Command::MoveTo { x, y } => CommandView::MoveTo { x, y },
            Command::Click { button, count } => CommandView::Click { button, count },
            Command::Scroll { delta_x, delta_y } => CommandView::Scroll { delta_x, delta_y },
            Command::SendKeys { text } => CommandView::SendKeys { text: text@ },
            Command::TypeText { text } => CommandView::TypeText { text: text@ },
            Command::Sleep { ms } => CommandView::Sleep { ms },
            Command::SleepRandom { min, max } => CommandView::SleepRandom { min, max },
            Command::FocusWindow { title_contains } => CommandView::FocusWindow {
                title_contains: title_contains@,
            },
            Command::Log { level, message } => CommandView::Log { level, message: message@ },
            Command::OcrCheck { region, must_contain } => CommandView::OcrCheck {
                region,
                must_contain: must_contain@,
            },
            Command::CaptureScreen { path, region } => CommandView::CaptureScreen {
                path: path@,
                region,
            },
        }
    }
}

/// Why a run of actions stopped.
#[derive(Debug, PartialEq)]
pub enum ExecError {
    /// A reference names no action.
    UnresolvedReference { name: String },
    /// Actions nested deeper than `MAX_DEPTH`.
    MaxDepthExceeded,
}

/// An `ExecError` with its name as a character sequence.
pub enum ExecErrorView {
    UnresolvedReference { name: Seq<char> },
    MaxDepthExceeded,
}

impl View for ExecError {
    type V = ExecErrorView;

    open spec fn view(&self) -> ExecErrorView {
        match *self {
            ExecError::UnresolvedReference { name } => ExecErrorView::UnresolvedReference {
                name: name@,
            },
            ExecError::MaxDepthExceeded => ExecErrorView::MaxDepthExceeded,
        }
    }
}

/// What running some actions does: the commands it issues, the variables it leaves,
/// and how it ends.
pub struct RunModel {
    pub cmds: Seq<CommandView>,
    pub vars: Map<Seq<char>, Seq<char>>,
    pub result: Result<(), ExecErrorView>,
}

/// The views of a list of commands.
pub open spec fn views(s: Seq<Command>) -> Seq<CommandView> {
    s.map_values(|c: Command| c@)
}

/// The variables of a table as character sequences.
pub open spec fn scope(vars: Table<String>) -> Map<Seq<char>, Seq<char>> {
    vars@.map_values(|v: String| v@)
}

/// A run that issues one command and succeeds.
pub open spec fn issue(c: CommandView, vars: Map<Seq<char>, Seq<char>>) -> RunModel {
    RunModel { cmds: seq![c], vars, result: Ok(()) }
}

/// What running action `a` at nesting depth `depth` does, with named actions `actions`,
/// globals `globals` and variables `vars`.
pub open spec fn run_action(
    actions: Map<Seq<char>, ActionDef>,
    globals: Map<Seq<char>, JsonValue>,
    a: ActionDef,
    vars: Map<Seq<char>, Seq<char>>,
    depth: int,
) -> RunModel
    decreases MAX_DEPTH + 1 - depth, a,
{
    if depth > MAX_DEPTH {
        RunModel { cmds: Seq::empty(), vars, result: Err(ExecErrorView::MaxDepthExceeded) }
    } else {
        match a {
            ActionDef::Sequence { steps } => run_steps(actions, globals, steps@, vars, depth + 1),
            ActionDef::Ref { name } => if actions.contains_key(name@) {
                run_action(actions, globals, actions[name@], vars, depth + 1)
            } else {
                RunModel {
                    cmds: Seq::empty(),
                    vars,
                    result: Err(ExecErrorView::UnresolvedReference { name: name@ }),
                }
            },
            ActionDef::MouseMove { x, y } => issue(CommandView::MoveTo { x, y }, vars),
            ActionDef::MouseClick { button, count } => issue(
                CommandView::Click { button, count },
                vars,
            ),
            ActionDef::MouseScroll { delta_x, delta_y } => issue(
                CommandView::Scroll { delta_x, delta_y },
                vars,
            ),
            ActionDef::KeySeq { text } => issue(
                CommandView::SendKeys { text: interp(text@, vars, globals) },
                vars,
            ),
            ActionDef::TypeText { text } => issue(
                CommandView::TypeText { text: interp(text@, vars, globals) },
                vars,
            ),
            ActionDef::SleepMs { ms } => issue(CommandView::Sleep { ms }, vars),
            ActionDef::SleepRandMs { min, max } => issue(CommandView::SleepRandom { min, max }, vars),
            ActionDef::FocusWindow { title_contains } => issue(
                CommandView::FocusWindow { title_contains: interp(title_contains@, vars, globals) },
                vars,
            ),
            ActionDef::SetVar { name, value } => RunModel {
                cmds: Seq::empty(),
                vars: vars.insert(interp(name@, vars, globals), interp(value@, vars, globals)),
                result: Ok(()),
            },
            ActionDef::Conditional { when, equals, then, else_ } => {
                if interp(when@, vars, globals) == interp(equals@, vars, globals) {
                    run_action(actions, globals, *then, vars, depth + 1)
                } else {
                    match else_ {
                        Some(e) => run_action(actions, globals, *e, vars, depth + 1),
                        None => RunModel { cmds: Seq::empty(), vars, result: Ok(()) },
                    }
                }
            },
            ActionDef::Log { level, message } => issue(
                CommandView::Log { level, message: interp(message@, vars, globals) },
                vars,
            ),
            ActionDef::OcrCheck { region, must_contain } => issue(
                CommandView::OcrCheck { region, must_contain: interp(must_contain@, vars, globals) },
                vars,
            ),
            ActionDef::CaptureScreen { path, region } => issue(
                CommandView::CaptureScreen { path: interp(path@, vars, globals), region },
                vars,
            ),
        }
    }
}

/// What running `steps` in order at depth `depth` does: it stops at the first that
/// fails.
pub open spec fn run_steps(
    actions: Map<Seq<char>, ActionDef>,
    globals: Map<Seq<char>, JsonValue>,
    steps: Seq<ActionDef>,
    vars: Map<Seq<char>, Seq<char>>,
    depth: int,
) -> RunModel
    decreases MAX_DEPTH + 1 - depth, steps,
{
    if steps.len() == 0 {
        RunModel { cmds: Seq::empty(), vars, result: Ok(()) }
    } else {
        let first = run_action(actions, globals, steps[0], vars, depth);
        if first.result is Err {
            first
        } else {
            let rest = run_steps(actions, globals, steps.drop_first(), first.vars, depth);
            RunModel { cmds: first.cmds + rest.cmds, vars: rest.vars, result: rest.result }
        }
    }
}

/// The position of the step at which running `steps` in order stops with an error;
/// nothing when every step succeeds.
pub open spec fn failing_step(
    actions: Map<Seq<char>, ActionDef>,
    globals: Map<Seq<char>, JsonValue>,
    steps: Seq<ActionDef>,
    vars: Map<Seq<char>, Seq<char>>,
    depth: int,
) -> Option<int>
    decreases steps.len(),
{
    if steps.len() == 0 {
        None
    } else {
        let first = run_action(actions, globals, steps[0], vars, depth);
        if first.result is Err {
            Some(0)
        } else {
            match failing_step(actions, globals, steps.drop_first(), first.vars, depth) {
                Some(k) => Some(k + 1),
                None => None,
            }
        }
    }
}

/// `k` moved `i` positions on.
pub open spec fn shifted(k: Option<int>, i: int) -> Option<int> {
    match k {
        Some(k) => Some(k + i),
        None => None,
    }
}

/// The result of a run as its view.
pub open spec fn result_view(r: Result<(), ExecError>) -> Result<(), ExecErrorView> {
    match r {
        Ok(()) => Ok(()),
        Err(e) => Err(e@),
    }
}

/// Why handling an event or running a workflow failed.
#[derive(Debug, PartialEq)]
pub enum RunError {
    /// The event has no string field `type`.
    MissingEventType,
    /// No binding exists for the event's type.
    NoBinding { event_type: String },
    /// No workflow has the name.
    UnknownWorkflow { name: String },
    /// A step of the workflow failed.
    StepFailed { workflow: String, step: usize, error: ExecError },
}

/// The commands that a run issued, in order, and how it ended.
#[derive(Debug, PartialEq)]
pub struct Run {
    pub commands: Vec<Command>,
    pub outcome: Result<(), RunError>,
}

/// The text that an event field gives a variable: a string as it is, any other value
/// as compact JSON, nothing when the path leads nowhere.
pub open spec fn field_text(event: JsonValue, path: Seq<char>) -> Seq<char> {
    match json_path(event, path) {
        Some(v) => display_text(v),
        None => Seq::empty(),
    }
}

/// The value reached from `v` through the object keys `segs`, taken as they are.
pub open spec fn walk_keys(v: JsonValue, segs: Seq<Seq<char>>) -> Option<JsonValue>
    decreases segs.len(),
{
    if segs.len() == 0 {
        Some(v)
    } else {
        match field_of(v, segs[0]) {
            Some(x) => walk_keys(x, segs.drop_first()),
            None => None,
        }
    }
}

/// The value at a dotted path; the empty path is the value itself.
pub open spec fn json_path(v: JsonValue, path: Seq<char>) -> Option<JsonValue> {
    if path.len() == 0 {
        Some(v)
    } else {
        walk_keys(v, split_spec(path, '.'))
    }
}

/// The value at a dotted path of object keys, such as `order.side`.
pub fn get_json_path<'a>(value: &'a JsonValue, path: &str) -> (r: Option<&'a JsonValue>)
    ensures
        match json_path(*value, path@) {
            Some(v) => r is Some && *r->Some_0 == v,
            None => r is None,
        },
{
    if path.unicode_len() == 0 {
        return Some(value);
    }
    let segs = split_char(path, '.');
    let ghost all = split_spec(path@, '.');
    let mut current: &JsonValue = value;
    let mut k: usize = 0;
    proof {
        assert(all.subrange(0, all.len() as int) =~= all);
    }
    while k < segs.len()
        invariant
            path@.len() > 0,
            segs@.len() == all.len(),
            forall|i: int| 0 <= i < segs@.len() ==> #[trigger] segs@[i]@ == all[i],
            k <= segs@.len(),
            json_path(*value, path@) == walk_keys(*current, all.subrange(k as int, all.len() as int)),
        decreases segs@.len() - k,
    {
        proof {
            let rest = all.subrange(k as int, all.len() as int);
            assert(rest.drop_first() =~= all.subrange(k + 1, all.len() as int));
            assert(rest[0] == all[k as int]);
        }
        match current.get(segs[k].as_str()) {
            Some(next) => {
                current = next;
            },
            None => {
                return None;
            },
        }
        k = k + 1;
    }
    proof {
        assert(all.subrange(k as int, all.len() as int) =~= Seq::<Seq<char>>::empty());
        if k == 0 {
            assert(all.subrange(0, all.len() as int) =~= all);
        }
    }
    Some(current)
}

/// Runs actions against a configuration.
#[derive(Debug)]
pub struct Runtime {
    config: Config,
    dry_run: bool,
}

impl Runtime {
    /// A runtime for `config`; in dry-run mode the provider only records what it is asked.
    pub fn new(config: Config, dry_run: bool) -> (r: Runtime)
        ensures
            *r.config() == config,
            r.is_dry_run() == dry_run,
    {
        Runtime { config, dry_run }
    }

    /// The configuration.
    pub closed spec fn config_spec(&self) -> &Config {
        &self.config
    }

    /// The configuration.
    #[verifier::when_used_as_spec(config_spec)]
    pub fn config(&self) -> (r: &Config)
        ensures
            r == self.config_spec(),
    {
        &self.config
    }

    /// Whether dry-run mode is on.
    pub closed spec fn dry_run_spec(&self) -> bool {
        self.dry_run
    }

    /// Whether dry-run mode is on.
    #[verifier::when_used_as_spec(dry_run_spec)]
    pub fn is_dry_run(&self) -> (r: bool)
        ensures
            r == self.dry_run_spec(),
    {
        self.dry_run
    }

    /// Turns dry-run mode on or off.
    pub fn set_dry_run(&mut self, dry_run: bool)
        ensures
            final(self).is_dry_run() == dry_run,
            final(self).config() == old(self).config(),
    {
        self.dry_run = dry_run;
    }

    /// Interpolates `s` with `vars` and the configuration's globals.
    pub fn interp(&self, s: &str, vars: &Table<String>) -> (r: String)
        ensures
            r@ == interp(s@, scope(*vars), self.config().globals@),
    {
        interpolate_string(s, vars, &self.config.globals)
    }

    /// Runs `action` at nesting depth `depth`, appending the commands it issues to
    /// `plan` and updating `vars` as its `SetVar` steps say.
    pub fn execute_action(
        &self,
        action: &ActionDef,
        vars: &mut Table<String>,
        depth: usize,
        plan: &mut Vec<Command>,
    ) -> (r: Result<(), ExecError>)
        ensures
            ({
                let m = run_action(
                    self.config().actions@,
                    self.config().globals@,
                    *action,
                    scope(*old(vars)),
                    depth as int,
                );
                &&& views(final(plan)@) == views(old(plan)@) + m.cmds
                &&& scope(*final(vars)) == m.vars
                &&& result_view(r) == m.result
            }),
        decreases MAX_DEPTH + 1 - depth,
    {
        let ghost acts = self.config.actions@;
        let ghost globs = self.config.globals@;
        let ghost v0 = scope(*vars);
        let ghost plan_before = views(plan@);
        if depth > MAX_DEPTH {
            return Err(ExecError::MaxDepthExceeded);
        }
        let cmd = match action {
            ActionDef::Sequence { steps } => {
                let mut i: usize = 0;
                proof {
                    assert(steps@.subrange(0, steps@.len() as int) =~= steps@);
                }
                while i < steps.len()
                    invariant
                        depth <= MAX_DEPTH,
                        *action == (ActionDef::Sequence { steps: *steps }),
                        v0 == scope(*old(vars)),
                        plan_before == views(old(plan)@),
                        acts == self.config.actions@,
                        globs == self.config.globals@,
                        i <= steps@.len(),
                        ({
                            let whole = run_steps(acts, globs, steps@, v0, depth + 1);
                            let rest = run_steps(
                                acts,
                                globs,
                                steps@.subrange(i as int, steps@.len() as int),
                                scope(*vars),
                                depth + 1,
                            );
                            &&& whole.result == rest.result
                            &&& whole.vars == rest.vars
                            &&& plan_before + whole.cmds == views(plan@) + rest.cmds
                        }),
                    decreases steps@.len() - i,
                {
                    let ghost vi = scope(*vars);
                    let ghost plan_now = views(plan@);
                    let ghost suffix = steps@.subrange(i as int, steps@.len() as int);
                    proof {
                        assert(suffix[0] == steps@[i as int]);
                        assert(suffix.drop_first() =~= steps@.subrange(i + 1, steps@.len() as int));
                    }
                    let res = self.execute_action(&steps[i], vars, depth + 1, plan);
                    match res {
                        Ok(()) => {},
                        Err(e) => {
                            proof {
                                let whole = run_steps(acts, globs, steps@, v0, depth + 1);
                                let first = run_action(acts, globs, suffix[0], vi, depth + 1);
                                assert(run_steps(acts, globs, suffix, vi, depth + 1) == first);
                                assert(views(plan@) == plan_now + first.cmds);
                                assert(plan_before + whole.cmds =~= views(plan@));
                            }
                            return Err(e);
                        },
                    }
                    proof {
                        let first = run_action(acts, globs, suffix[0], vi, depth + 1);
                        let rest = run_steps(acts, globs, suffix.drop_first(), first.vars, depth + 1);
                        assert(plan_now + (first.cmds + rest.cmds) =~= views(plan@) + rest.cmds);
                    }
                    i = i + 1;
                }
                proof {
                    assert(steps@.subrange(i as int, steps@.len() as int) =~= Seq::<ActionDef>::empty());
                    assert(views(plan@) + Seq::<CommandView>::empty() =~= views(plan@));
                }
                return Ok(());
            },
            ActionDef::Ref { name } => {
                match self.config.actions.get(name.as_str()) {
                    Some(target) => {
                        return self.execute_action(target, vars, depth + 1, plan);
                    },
                    None => {
                        proof {
                            assert(views(plan@) + Seq::<CommandView>::empty() =~= views(plan@));
                        }
                        return Err(ExecError::UnresolvedReference { name: name.clone() });
                    },
                }
            },
            ActionDef::MouseMove { x, y } => Command::MoveTo { x: *x, y: *y },
            ActionDef::MouseClick { button, count } => Command::Click { button: *button, count: *count },
            ActionDef::MouseScroll { delta_x, delta_y } => Command::Scroll {
                delta_x: *delta_x,
                delta_y: *delta_y,
            },
            ActionDef::KeySeq { text } => Command::SendKeys { text: self.interp(text.as_str(), vars) },
            ActionDef::TypeText { text } => Command::TypeText {
                text: self.interp(text.as_str(), vars),
            },
            ActionDef::SleepMs { ms } => Command::Sleep { ms: *ms },
            ActionDef::SleepRandMs { min, max } => Command::SleepRandom { min: *min, max: *max },
            ActionDef::FocusWindow { title_contains } => Command::FocusWindow {
                title_contains: self.interp(title_contains.as_str(), vars),
            },
            ActionDef::SetVar { name, value } => {
                let k = self.interp(name.as_str(), vars);
                let v = self.interp(value.as_str(), vars);
                let ghost before = vars@;
                vars.insert(k, v);
                proof {
                    assert(scope(*vars) =~= v0.insert(k@, v@));
                    assert(views(plan@) + Seq::<CommandView>::empty() =~= views(plan@));
                }
                return Ok(());
            },
            ActionDef::Conditional { when, equals, then, else_ } => {
                let lhs = self.interp(when.as_str(), vars);
                let rhs = self.interp(equals.as_str(), vars);
                if lhs == rhs {
                    return self.execute_action(then, vars, depth + 1, plan);
                } else {
                    match else_ {
                        Some(e) => {
                            return self.execute_action(e, vars, depth + 1, plan);
                        },
                        None => {
                            proof {
                                assert(views(plan@) + Seq::<CommandView>::empty() =~= views(plan@));
                            }
                            return Ok(());
                        },
                    }
                }
            },
            ActionDef::Log { level, message } => Command::Log {
                level: *level,
                message: self.interp(message.as_str(), vars),
            },
            ActionDef::OcrCheck { region, must_contain } => Command::OcrCheck {
                region: *region,
                must_contain: self.interp(must_contain.as_str(), vars),
            },
            ActionDef::CaptureScreen { path, region } => Command::CaptureScreen {
                path: self.interp(path.as_str(), vars),
                region: *region,
            },
        };
        let ghost before = plan@;
        plan.push(cmd);
        proof {
            assert(views(plan@) =~= views(before).push(cmd@));
            assert(views(plan@) =~= plan_before + seq![cmd@]);
        }
        Ok(())
    }

    /// The configuration, for changes between runs such as new globals.
    pub fn config_mut(&mut self) -> (r: &mut Config)
        ensures
            *r == *old(self).config(),
            *final(self).config() == *final(r),
            final(self).is_dry_run() == old(self).is_dry_run(),
    {
        &mut self.config
    }

    /// The variables that an event seeds through `binding`: each variable of its map
    /// gets the text of the event field at its path, or the empty text when there is none.
    pub fn vars_from_event(&self, binding: &EventBinding, event: &JsonValue) -> (r: Result<
        Table<String>,
        RunError,
    >)
        ensures
            r matches Ok(vars) && scope(vars) == seeded(binding.vars_map@, *event),
    {
        let mut vars: Table<String> = Table::new();
        let n = binding.vars_map.entries.len();
        let ghost s = binding.vars_map.entries@;
        let mut i: usize = 0;
        proof {
            assert(scope(vars) =~= seeded(entries_map(s.subrange(0, 0)), *event));
        }
        while i < n
            invariant
                n == s.len(),
                s == binding.vars_map.entries@,
                i <= n,
                scope(vars) == seeded(entries_map(s.subrange(0, i as int)), *event),
            decreases n - i,
        {
            let (name, path) = &binding.vars_map.entries[i];
            let text = match get_json_path(event, path.as_str()) {
                Some(v) => v.display_text(),
                None => String::new(),
            };
            let ghost before = scope(vars);
            vars.insert(name.clone(), text);
            proof {
                let t = s.subrange(0, i as int + 1);
                assert(t.drop_last() =~= s.subrange(0, i as int));
                assert(t.last() == s[i as int]);
                assert(text@ == field_text(*event, path@));
                assert(entries_map(t) == entries_map(s.subrange(0, i as int)).insert(name@, *path));
                assert(scope(vars) =~= before.insert(name@, text@));
                assert(scope(vars) =~= seeded(entries_map(t), *event));
            }
            i = i + 1;
        }
        proof {
            assert(s.subrange(0, n as int) =~= s);
        }
        Ok(vars)
    }

    /// Runs the named workflow with `vars`, each of its steps at depth zero, stopping
    /// at the first step that fails.
    pub fn execute_workflow(&self, workflow_name: &str, vars: Table<String>) -> (r: Run)
        ensures
            run_agrees(
                r,
                workflow_name@,
                workflow_model(*self.config(), workflow_name@, scope(vars)),
                workflow_failing_step(*self.config(), workflow_name@, scope(vars)),
            ),
    {
        let ghost v0 = scope(vars);
        let mut vars = vars;
        let mut plan: Vec<Command> = Vec::new();
        let steps = match self.config.workflows.get(workflow_name) {
            Some(steps) => steps,
            None => {
                return Run {
                    commands: plan,
                    outcome: Err(RunError::UnknownWorkflow { name: workflow_name.to_string() }),
                };
            },
        };
        let ghost acts = self.config.actions@;
        let ghost globs = self.config.globals@;
        let mut failure: Option<(usize, ExecError)> = None;
        let mut i: usize = 0;
        proof {
            assert(steps@.subrange(0, steps@.len() as int) =~= steps@);
            assert(views(plan@) =~= Seq::<CommandView>::empty());
        }
        while i < steps.len()
            invariant_except_break
                failure is None,
                ({
                    let whole = run_steps(acts, globs, steps@, v0, 0);
                    let rest = run_steps(
                        acts,
                        globs,
                        steps@.subrange(i as int, steps@.len() as int),
                        scope(vars),
                        0,
                    );
                    &&& whole.result == rest.result
                    &&& whole.vars == rest.vars
                    &&& whole.cmds == views(plan@) + rest.cmds
                }),
                failing_step(acts, globs, steps@, v0, 0) == shifted(
                    failing_step(
                        acts,
                        globs,
                        steps@.subrange(i as int, steps@.len() as int),
                        scope(vars),
                        0,
                    ),
                    i as int,
                ),
            invariant
                acts == self.config.actions@,
                globs == self.config.globals@,
                i <= steps@.len(),
            ensures
                ({
                    let whole = run_steps(acts, globs, steps@, v0, 0);
                    match failure {
                        None => whole.result is Ok && whole.cmds == views(plan@) && failing_step(
                            acts,
                            globs,
                            steps@,
                            v0,
                            0,
                        ) is None,
                        Some((k, e)) => whole.result == Err::<(), ExecErrorView>(e@)
                            && whole.cmds == views(plan@) && failing_step(acts, globs, steps@, v0, 0)
                            == Some(k as int),
                    }
                }),
            decreases steps@.len() - i,
        {
            let ghost vi = scope(vars);
            let ghost plan_now = views(plan@);
            let ghost suffix = steps@.subrange(i as int, steps@.len() as int);
            proof {
                assert(suffix[0] == steps@[i as int]);
                assert(suffix.drop_first() =~= steps@.subrange(i + 1, steps@.len() as int));
            }
            match self.execute_action(&steps[i], &mut vars, 0, &mut plan) {
                Ok(()) => {},
                Err(e) => {
                    proof {
                        let first = run_action(acts, globs, suffix[0], vi, 0);
                        assert(run_steps(acts, globs, suffix, vi, 0) == first);
                        assert(views(plan@) == plan_now + first.cmds);
                        assert(run_steps(acts, globs, steps@, v0, 0).cmds =~= views(plan@));
                    }
                    failure = Some((i, e));
                    break;
                },
            }
            proof {
                let first = run_action(acts, globs, suffix[0], vi, 0);
                let rest = run_steps(acts, globs, suffix.drop_first(), first.vars, 0);
                assert(plan_now + (first.cmds + rest.cmds) =~= views(plan@) + rest.cmds);
            }
            i = i + 1;
            proof {
                if i == steps@.len() {
                    assert(steps@.subrange(i as int, steps@.len() as int) =~= Seq::<ActionDef>::empty());
                    assert(views(plan@) + Seq::<CommandView>::empty() =~= views(plan@));
                }
            }
        }
        proof {
            if steps@.len() == 0 {
                assert(views(plan@) + Seq::<CommandView>::empty() =~= views(plan@));
            }
        }
        match failure {
            None => Run { commands: plan, outcome: Ok(()) },
            Some((step, error)) => Run {
                commands: plan,
                outcome: Err(
                    RunError::StepFailed { workflow: workflow_name.to_string(), step, error },
                ),
            },
        }
    }

    /// Runs a workflow by name with the given variables, without an event.
    pub fn run_workflow_by_name(&self, workflow_name: &str, vars: Table<String>) -> (r: Run)
        ensures
            run_agrees(
                r,
                workflow_name@,
                workflow_model(*self.config(), workflow_name@, scope(vars)),
                workflow_failing_step(*self.config(), workflow_name@, scope(vars)),
            ),
    {
        self.execute_workflow(workflow_name, vars)
    }

    /// Handles an event: its string field `type` selects a binding, whose variable map
    /// seeds the variables of the bound workflow, which then runs.
    pub fn run_event(&self, event: &JsonValue) -> (r: Run)
        ensures
            match event_type(*event) {
                None => r.commands@.len() == 0 && r.outcome matches Err(RunError::MissingEventType),
                Some(t) => if self.config().events@.contains_key(t) {
                    let b = self.config().events@[t];
                    run_agrees(
                        r,
                        b.workflow@,
                        workflow_model(*self.config(), b.workflow@, seeded(b.vars_map@, *event)),
                        workflow_failing_step(*self.config(), b.workflow@, seeded(b.vars_map@, *event)),
                    )
                } else {
                    &&& r.commands@.len() == 0
                    &&& r.outcome matches Err(RunError::NoBinding { event_type })
                    &&& event_type@ == t
                },
            },
    {
        proof {
            reveal_strlit("type");
            assert("type"@ =~= type_key());
        }
        let event_type = match event.get("type") {
            Some(v) => match v.as_str() {
                Some(s) => s,
                None => {
                    return Run { commands: Vec::new(), outcome: Err(RunError::MissingEventType) };
                },
            },
            None => {
                return Run { commands: Vec::new(), outcome: Err(RunError::MissingEventType) };
            },
        };
        let binding = match self.config.events.get(event_type) {
            Some(b) => b,
            None => {
                return Run {
                    commands: Vec::new(),
                    outcome: Err(RunError::NoBinding { event_type: event_type.to_string() }),
                };
            },
        };
        let vars = match self.vars_from_event(binding, event) {
            Ok(v) => v,
            Err(e) => {
                return Run { commands: Vec::new(), outcome: Err(e) };
            },
        };
        self.execute_workflow(binding.workflow.as_str(), vars)
    }
}

/// The key of an event's discriminator field.
pub open spec fn type_key() -> Seq<char> {
    seq!['t', 'y', 'p', 'e']
}

/// The type of an event: its string field `type`.
pub open spec fn event_type(event: JsonValue) -> Option<Seq<char>> {
    match field_of(event, type_key()) {
        Some(JsonValue::Str(s)) => Some(s@),
        _ => None,
    }
}

/// The variables that a variable map (variable to dotted path) seeds from `event`.
pub open spec fn seeded(vars_map: Map<Seq<char>, String>, event: JsonValue) -> Map<Seq<char>, Seq<char>> {
    vars_map.map_values(|p: String| field_text(event, p@))
}

/// The step at which running the named workflow with `vars` fails, if it does.
pub open spec fn workflow_failing_step(
    cfg: Config,
    name: Seq<char>,
    vars: Map<Seq<char>, Seq<char>>,
) -> Option<int> {
    if cfg.workflows@.contains_key(name) {
        failing_step(cfg.actions@, cfg.globals@, cfg.workflows@[name]@, vars, 0)
    } else {
        None
    }
}

/// What running the named workflow with `vars` does; nothing when there is no such
/// workflow.
pub open spec fn workflow_model(cfg: Config, name: Seq<char>, vars: Map<Seq<char>, Seq<char>>) -> Option<
    RunModel,
> {
    if cfg.workflows@.contains_key(name) {
        Some(run_steps(cfg.actions@, cfg.globals@, cfg.workflows@[name]@, vars, 0))
    } else {
        None
    }
}

/// `r` reports the run `m` of workflow `name`: the same commands, success exactly when
/// the model succeeds, and on failure the same error at step `failing`.
pub open spec fn run_agrees(r: Run, name: Seq<char>, m: Option<RunModel>, failing: Option<int>) -> bool {
    match m {
        None => {
            &&& r.commands@.len() == 0
            &&& r.outcome matches Err(RunError::UnknownWorkflow { name: n })
            &&& n@ == name
        },
        Some(m) => {
            &&& views(r.commands@) == m.cmds
            &&& r.outcome is Ok <==> m.result is Ok
            &&& m.result is Err ==> (r.outcome matches Err(
                RunError::StepFailed { workflow, step, error },
            ) && workflow@ == name && Err::<(), ExecErrorView>(error@) == m.result && failing
                == Some(step as int))
        },
    }
}

/// Two named actions that refer to each other fail at run time with the depth error,
/// from whatever depth they start, issuing no command and leaving the variables as
/// they were.
pub proof fn lemma_reference_cycle_hits_depth_limit(
    actions: Map<Seq<char>, ActionDef>,
    globals: Map<Seq<char>, JsonValue>,
    a: Seq<char>,
    b: Seq<char>,
    vars: Map<Seq<char>, Seq<char>>,
    depth: int,
)
    requires
        actions.contains_key(a),
        actions.contains_key(b),
        actions[a] matches ActionDef::Ref { name } && name@ == b,
        actions[b] matches ActionDef::Ref { name } && name@ == a,
    ensures
        run_action(actions, globals, actions[a], vars, depth) == (RunModel {
            cmds: Seq::empty(),
            vars,
            result: Err(ExecErrorView::MaxDepthExceeded),
        }),
    decreases MAX_DEPTH + 1 - depth,
{
    if depth <= MAX_DEPTH {
        lemma_reference_cycle_hits_depth_limit(actions, globals, b, a, vars, depth + 1);
    }
}

} // verus!
