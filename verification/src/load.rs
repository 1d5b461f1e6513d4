//! Starting `larql chat`: what to do next, and what to make of the outcome.
//!
//! A [`ModelLoad`] names one action at a time; the caller performs it and reports what happened.
use crate::error::ProviderError;
use crate::text::{decimal, decimal_string, parse_u64, parsed_u64, texts, written_numbers_read_back};
use vstd::prelude::*;
use vstd::string::StringExecFns;

verus! {

/// The program that is run where none is configured.
pub const DEFAULT_LARQL_BIN: &'static str = "larql";

/// How many seconds the first prompt may take where nothing else is configured.
pub const DEFAULT_LOAD_TIMEOUT_SECS: u64 = 120;

/// How long a child gets to exit after its first prompt before it counts as running, in
/// milliseconds. A program that only prints a usage line may seem to prompt, and is gone at once.
pub const EXIT_GRACE_MILLIS: u64 = 50;

/// What has to be done next to load a model.
#[derive(Debug, PartialEq, Eq)]
pub enum LoadAction {
    /// Find out whether the vindex path exists.
    CheckPath,
    /// Start the program with all three standard streams piped.
    Spawn { program: String, args: Vec<String> },
    /// Take the child's ends of the three pipes.
    TakePipes,
    /// Watch the child's standard error, and wait for the first turn prompt. Once the child has
    /// exited without one there is nothing left to wait for.
    AwaitPrompt { timeout_secs: u64 },
    /// Find out whether the child still runs, a moment ([`EXIT_GRACE_MILLIS`]) after its prompt.
    PollChild,
    /// Nothing more: the model is loaded.
    Ready,
    /// Nothing more: the model cannot be loaded. The child is to be killed where that is said.
    Fail { error: ProviderError, kill_child: bool },
}

/// What came of an action.
#[derive(Debug, PartialEq, Eq)]
pub enum LoadEvent {
    PathChecked { exists: bool },
    Spawned,
    SpawnFailed { reason: String },
    PipesTaken { stdin: bool, stdout: bool, stderr: bool },
    PromptSeen,
    PromptMissed,
    ChildRunning,
    /// The child has exited, or it cannot be learned whether it runs; `status` says how or why.
    ChildExited { status: String },
}

/// How far the loading of a model has come.
enum LoadStage {
    CheckPath,
    Spawn,
    TakePipes,
    AwaitPrompt,
    PollChild,
    Ready,
    Failed { error: ProviderError, kill_child: bool },
}

/// The loading of one model.
pub struct ModelLoad {
    model_id: String,
    vindex_path: String,
    program: String,
    timeout_secs: u64,
    stage: LoadStage,
}

// ---------------------------------------------------------------------------
// The model
// ---------------------------------------------------------------------------

/// How far the loading of a model has come.
pub enum LoadStageView {
    CheckPath,
    Spawn,
    TakePipes,
    AwaitPrompt,
    PollChild,
    Ready,
    Failed { error: Seq<char>, kill_child: bool },
}

/// The state of a [`ModelLoad`].
pub struct LoadView {
    pub model_id: Seq<char>,
    pub vindex_path: Seq<char>,
    pub program: Seq<char>,
    pub timeout_secs: u64,
    pub stage: LoadStageView,
}

/// What a [`LoadAction`] says.
pub enum LoadActionView {
    CheckPath,
    Spawn { program: Seq<char>, args: Seq<Seq<char>> },
    TakePipes,
    AwaitPrompt { timeout_secs: u64 },
    PollChild,
    Ready,
    Fail { error: Seq<char>, kill_child: bool },
}

impl View for LoadAction {
    type V = LoadActionView;

    open spec fn view(&self) -> LoadActionView {
        match self {
            LoadAction::CheckPath => LoadActionView::CheckPath,
            LoadAction::Spawn { program, args } => LoadActionView::Spawn {
                program: program@,
                args: texts(args@),
            },
            LoadAction::TakePipes => LoadActionView::TakePipes,
            LoadAction::AwaitPrompt { timeout_secs } => LoadActionView::AwaitPrompt {
                timeout_secs: *timeout_secs,
            },
            LoadAction::PollChild => LoadActionView::PollChild,
            LoadAction::Ready => LoadActionView::Ready,
            LoadAction::Fail { error, kill_child } => LoadActionView::Fail {
                error: error@,
                kill_child: *kill_child,
            },
        }
    }
}

impl View for LoadStage {
    type V = LoadStageView;

    closed spec fn view(&self) -> LoadStageView {
        match self {
            LoadStage::CheckPath => LoadStageView::CheckPath,
            LoadStage::Spawn => LoadStageView::Spawn,
            LoadStage::TakePipes => LoadStageView::TakePipes,
            LoadStage::AwaitPrompt => LoadStageView::AwaitPrompt,
            LoadStage::PollChild => LoadStageView::PollChild,
            LoadStage::Ready => LoadStageView::Ready,
            LoadStage::Failed { error, kill_child } => LoadStageView::Failed {
                error: error@,
                kill_child: *kill_child,
            },
        }
    }
}

impl View for ModelLoad {
    type V = LoadView;

    closed spec fn view(&self) -> LoadView {
        LoadView {
            model_id: self.model_id@,
            vindex_path: self.vindex_path@,
            program: self.program@,
            timeout_secs: self.timeout_secs,
            stage: self.stage@,
        }
    }
}

/// The time limit that the setting `value` asks for: its number of seconds where it is one.
pub open spec fn load_timeout(value: Option<Seq<char>>) -> u64 {
    match value {
        Some(text) => match parsed_u64(text) {
            Some(secs) => secs,
            None => DEFAULT_LOAD_TIMEOUT_SECS,
        },
        None => DEFAULT_LOAD_TIMEOUT_SECS,
    }
}

impl LoadView {
    /// What has to be done next.
    pub open spec fn action(self) -> LoadActionView {
        match self.stage {
            LoadStageView::CheckPath => LoadActionView::CheckPath,
            LoadStageView::Spawn => LoadActionView::Spawn {
                program: self.program,
                args: seq!["chat"@, self.vindex_path],
            },
            LoadStageView::TakePipes => LoadActionView::TakePipes,
            LoadStageView::AwaitPrompt => LoadActionView::AwaitPrompt {
                timeout_secs: self.timeout_secs,
            },
            LoadStageView::PollChild => LoadActionView::PollChild,
            LoadStageView::Ready => LoadActionView::Ready,
            LoadStageView::Failed { error, kill_child } => LoadActionView::Fail {
                error,
                kill_child,
            },
        }
    }

    pub open spec fn path_missing(self) -> Seq<char> {
        "larql backend: vindex path does not exist for model '"@ + self.model_id + "': "@
            + self.vindex_path
    }

    pub open spec fn spawn_failed(self, reason: Seq<char>) -> Seq<char> {
        "larql backend: failed to spawn '"@ + self.program + " chat "@ + self.vindex_path + "': "@
            + reason + " (set LARQL_BIN to an absolute path if '"@ + self.program
            + "' is not on PATH in this environment)"@
    }

    pub open spec fn prompt_missed(self) -> Seq<char> {
        "larql backend: 'larql chat "@ + self.vindex_path
            + "' did not produce its first prompt within "@ + decimal(self.timeout_secs as nat)
            + "s (check the binary is on PATH inside the execution boundary and the vindex is valid; set LARQL_LOAD_TIMEOUT_SECS higher if the vindex is just slow to load on this host)"@
    }

    pub open spec fn child_exited(self, status: Seq<char>) -> Seq<char> {
        "larql backend: 'larql chat "@ + self.vindex_path + "' exited while it was loaded (status: "@
            + status + ")"@
    }

    /// The state in the stage `stage`.
    pub open spec fn at(self, stage: LoadStageView) -> LoadView {
        LoadView { stage, ..self }
    }

    /// The state after a failure.
    pub open spec fn failed(self, error: Seq<char>, kill_child: bool) -> LoadView {
        self.at(LoadStageView::Failed { error, kill_child })
    }

    /// The state after `event`. An event that does not answer the current action changes nothing.
    pub open spec fn next(self, event: LoadEvent) -> LoadView {
        match (self.stage, event) {
            (LoadStageView::CheckPath, LoadEvent::PathChecked { exists }) => if exists {
                self.at(LoadStageView::Spawn)
            } else {
                self.failed(self.path_missing(), false)
            },
            (LoadStageView::Spawn, LoadEvent::Spawned) => self.at(LoadStageView::TakePipes),
            (LoadStageView::Spawn, LoadEvent::SpawnFailed { reason }) => self.failed(
                self.spawn_failed(reason@),
                false,
            ),
            (LoadStageView::TakePipes, LoadEvent::PipesTaken { stdin, stdout, stderr }) => if !stdin {
                self.failed("larql backend: child stdin unavailable"@, false)
            } else if !stdout {
                self.failed("larql backend: child stdout unavailable"@, false)
            } else if !stderr {
                self.failed("larql backend: child stderr unavailable"@, false)
            } else {
                self.at(LoadStageView::AwaitPrompt)
            },
            (LoadStageView::AwaitPrompt, LoadEvent::PromptSeen) => self.at(
                LoadStageView::PollChild,
            ),
            (LoadStageView::AwaitPrompt, LoadEvent::PromptMissed) => self.failed(
                self.prompt_missed(),
                true,
            ),
            (LoadStageView::AwaitPrompt, LoadEvent::ChildExited { status }) => self.failed(
                self.prompt_missed(),
                true,
            ),
            (LoadStageView::PollChild, LoadEvent::ChildRunning) => self.at(LoadStageView::Ready),
            (LoadStageView::PollChild, LoadEvent::ChildExited { status }) => self.failed(
                self.child_exited(status@),
                false,
            ),
            _ => self,
        }
    }
}

// ---------------------------------------------------------------------------
// The machine
// ---------------------------------------------------------------------------

impl ModelLoad {
    /// The loading of the model `model_id` from `vindex_path`. `larql_bin` and `load_timeout` are
    /// the settings `LARQL_BIN` and `LARQL_LOAD_TIMEOUT_SECS`, where they are set.
    pub fn new(
        model_id: &str,
        vindex_path: &str,
        larql_bin: Option<String>,
        load_timeout: Option<String>,
    ) -> (load: ModelLoad)
        ensures
            load@ == (LoadView {
                model_id: model_id@,
                vindex_path: vindex_path@,
                program: match larql_bin {
                    Some(program) => program@,
                    None => DEFAULT_LARQL_BIN@,
                },
                timeout_secs: self::load_timeout(
                    match load_timeout {
                        Some(text) => Some(text@),
                        None => None,
                    },
                ),
                stage: LoadStageView::CheckPath,
            }),
    {
        let program = match larql_bin {
            Some(program) => program,
            None => DEFAULT_LARQL_BIN.to_owned(),
        };
        let timeout_secs: u64 = match load_timeout {
            Some(text) => match parse_u64(text.as_str()) {
                Some(secs) => secs,
                None => DEFAULT_LOAD_TIMEOUT_SECS,
            },
            None => DEFAULT_LOAD_TIMEOUT_SECS,
        };
        ModelLoad {
            model_id: model_id.to_owned(),
            vindex_path: vindex_path.to_owned(),
            program,
            timeout_secs,
            stage: LoadStage::CheckPath,
        }
    }

    /// What has to be done next.
    pub fn action(&self) -> (action: LoadAction)
        ensures
            action@ == self@.action(),
    {
        match &self.stage {
            LoadStage::CheckPath => LoadAction::CheckPath,
            LoadStage::Spawn => {
                let mut args: Vec<String> = Vec::new();
                args.push("chat".to_owned());
                args.push(self.vindex_path.clone());
                assert(texts(args@) =~= seq!["chat"@, self.vindex_path@]);
                LoadAction::Spawn { program: self.program.clone(), args }
            },
            LoadStage::TakePipes => LoadAction::TakePipes,
            LoadStage::AwaitPrompt => LoadAction::AwaitPrompt { timeout_secs: self.timeout_secs },
            LoadStage::PollChild => LoadAction::PollChild,
            LoadStage::Ready => LoadAction::Ready,
            LoadStage::Failed { error, kill_child } => LoadAction::Fail {
                error: error.duplicate(),
                kill_child: *kill_child,
            },
        }
    }

    /// Takes in what came of the current action.
    pub fn answer(&mut self, event: LoadEvent)
        ensures
            final(self)@ == old(self)@.next(event),
    {
        match (&self.stage, event) {
            (LoadStage::CheckPath, LoadEvent::PathChecked { exists }) => if exists {
                self.stage = LoadStage::Spawn;
            } else {
                let mut text = "larql backend: vindex path does not exist for model '".to_owned();
                text.append(self.model_id.as_str());
                text.append("': ");
                text.append(self.vindex_path.as_str());
                self.fail(text, false);
            },
            (LoadStage::Spawn, LoadEvent::Spawned) => {
                self.stage = LoadStage::TakePipes;
            },
            (LoadStage::Spawn, LoadEvent::SpawnFailed { reason }) => {
                let mut text = "larql backend: failed to spawn '".to_owned();
                text.append(self.program.as_str());
                text.append(" chat ");
                text.append(self.vindex_path.as_str());
                text.append("': ");
                text.append(reason.as_str());
                text.append(" (set LARQL_BIN to an absolute path if '");
                text.append(self.program.as_str());
                text.append("' is not on PATH in this environment)");
                self.fail(text, false);
            },
            (LoadStage::TakePipes, LoadEvent::PipesTaken { stdin, stdout, stderr }) => if !stdin {
                self.fail("larql backend: child stdin unavailable".to_owned(), false);
            } else if !stdout {
                self.fail("larql backend: child stdout unavailable".to_owned(), false);
            } else if !stderr {
                self.fail("larql backend: child stderr unavailable".to_owned(), false);
            } else {
                self.stage = LoadStage::AwaitPrompt;
            },
            (LoadStage::AwaitPrompt, LoadEvent::PromptSeen) => {
                self.stage = LoadStage::PollChild;
            },
            (LoadStage::AwaitPrompt, LoadEvent::ChildExited { status: _ }) => {
                self.fail_without_prompt();
            },
            (LoadStage::PollChild, LoadEvent::ChildRunning) => {
                self.stage = LoadStage::Ready;
            },
            (LoadStage::PollChild, LoadEvent::ChildExited { status }) => {
                self.fail_exited(status);
            },
            (LoadStage::AwaitPrompt, LoadEvent::PromptMissed) => {
                self.fail_without_prompt();
            },
            _ => {},
        }
    }

    fn fail_without_prompt(&mut self)
        ensures
            final(self)@ == old(self)@.failed(old(self)@.prompt_missed(), true),
    {
        let mut text = "larql backend: 'larql chat ".to_owned();
        text.append(self.vindex_path.as_str());
        text.append("' did not produce its first prompt within ");
        text.append(decimal_string(self.timeout_secs).as_str());
        text.append(
            "s (check the binary is on PATH inside the execution boundary and the vindex is valid; set LARQL_LOAD_TIMEOUT_SECS higher if the vindex is just slow to load on this host)",
        );
        self.fail(text, true);
    }

    fn fail_exited(&mut self, status: String)
        ensures
            final(self)@ == old(self)@.failed(old(self)@.child_exited(status@), false),
    {
        let mut text = "larql backend: 'larql chat ".to_owned();
        text.append(self.vindex_path.as_str());
        text.append("' exited while it was loaded (status: ");
        text.append(status.as_str());
        text.append(")");
        self.fail(text, false);
    }

    fn fail(&mut self, text: String, kill_child: bool)
        ensures
            final(self)@ == old(self)@.failed(text@, kill_child),
    {
        self.stage = LoadStage::Failed { error: ProviderError::ExecutionError(text), kill_child };
    }
}

// ---------------------------------------------------------------------------
// What holds of every load
// ---------------------------------------------------------------------------

impl LoadView {
    /// Whether nothing more is to be done.
    pub open spec fn is_settled(self) -> bool {
        self.stage is Ready || self.stage is Failed
    }

    /// The state after `events`.
    pub open spec fn run(self, events: Seq<LoadEvent>) -> LoadView
        decreases events.len(),
    {
        if events.len() == 0 {
            self
        } else {
            self.run(events.drop_last()).next(events.last())
        }
    }
}

/// A time limit that is set in decimal is the one that is kept.
pub proof fn configured_time_limits_are_kept(secs: u64)
    ensures
        load_timeout(Some(decimal(secs as nat))) == secs,
{
    written_numbers_read_back(secs);
}

/// A load that has succeeded or failed stays so, whatever is reported afterwards.
pub proof fn settled_loads_stay_settled(load: LoadView, events: Seq<LoadEvent>)
    requires
        load.is_settled(),
    ensures
        load.run(events) == load,
    decreases events.len(),
{
    if events.len() > 0 {
        settled_loads_stay_settled(load, events.drop_last());
    }
}

/// Success is never declared before the child has shown its first prompt.
pub proof fn no_prompt_no_success(load: LoadView, events: Seq<LoadEvent>)
    requires
        !(load.stage is PollChild),
        !(load.stage is Ready),
        forall|i: int| 0 <= i < events.len() ==> !(#[trigger] events[i] is PromptSeen),
    ensures
        !(load.run(events).stage is PollChild),
        !(load.run(events).stage is Ready),
    decreases events.len(),
{
    if events.len() > 0 {
        assert(!(events[events.len() - 1] is PromptSeen));
        let earlier = events.drop_last();
        assert forall|i: int| 0 <= i < earlier.len() implies !(#[trigger] earlier[i]
            is PromptSeen) by {
            assert(earlier[i] == events[i]);
        }
        no_prompt_no_success(load, earlier);
    }
}

/// Success is never declared before the child is known to run.
pub proof fn no_live_child_no_success(load: LoadView, events: Seq<LoadEvent>)
    requires
        !(load.stage is Ready),
        forall|i: int| 0 <= i < events.len() ==> !(#[trigger] events[i] is ChildRunning),
    ensures
        !(load.run(events).stage is Ready),
    decreases events.len(),
{
    if events.len() > 0 {
        assert(!(events[events.len() - 1] is ChildRunning));
        let earlier = events.drop_last();
        assert forall|i: int| 0 <= i < earlier.len() implies !(#[trigger] earlier[i]
            is ChildRunning) by {
            assert(earlier[i] == events[i]);
        }
        no_live_child_no_success(load, earlier);
    }
}

/// A child that exits after its prompt, before it is known to run, fails the load for good, and
/// there is nothing to kill.
pub proof fn exited_children_fail_the_load(
    load: LoadView,
    status: String,
    events: Seq<LoadEvent>,
)
    requires
        load.stage is PollChild,
    ensures
        load.next(LoadEvent::ChildExited { status }).run(events) == load.failed(
            load.child_exited(status@),
            false,
        ),
{
    settled_loads_stay_settled(load.next(LoadEvent::ChildExited { status }), events);
}

/// Whether `event` says that the first prompt will not come any more: the time is up, or the child
/// has exited.
pub open spec fn gives_up_prompt(event: LoadEvent) -> bool {
    event is PromptMissed || event is ChildExited
}

/// A load without a first prompt, whether its child hangs or has exited, fails for good: the error
/// names the path and the time limit, and the child is killed.
pub proof fn no_prompt_fails_the_load(load: LoadView, event: LoadEvent, events: Seq<LoadEvent>)
    requires
        load.stage is AwaitPrompt,
        gives_up_prompt(event),
    ensures
        load.next(event).run(events) == load.failed(load.prompt_missed(), true),
{
    settled_loads_stay_settled(load.next(event), events);
}

/// Whether the first prompt was missed at position `i` of `events`.
pub open spec fn prompt_missed_at(load: LoadView, events: Seq<LoadEvent>, i: int) -> bool {
    &&& 0 <= i < events.len()
    &&& load.run(events.take(i)).stage is AwaitPrompt
    &&& gives_up_prompt(events[i])
}

/// A failed load has its child killed exactly where the first prompt did not come, and the error
/// says so.
pub proof fn only_a_missed_prompt_kills_the_child(load: LoadView, events: Seq<LoadEvent>)
    requires
        !load.is_settled(),
        load.run(events).stage is Failed,
    ensures
        load.run(events).stage->kill_child <==> exists|i: int| prompt_missed_at(load, events, i),
        load.run(events).stage->kill_child ==> load.run(events).stage->error
            == load.prompt_missed(),
    decreases events.len(),
{
    let earlier = events.drop_last();
    assert(events.take(events.len() - 1) =~= earlier);
    lemma_run_keeps_settings(load, earlier);
    if load.run(earlier).stage is Failed {
        only_a_missed_prompt_kills_the_child(load, earlier);
        if load.run(events).stage->kill_child {
            let i = choose|i: int| prompt_missed_at(load, earlier, i);
            assert(events.take(i) =~= earlier.take(i));
            assert(prompt_missed_at(load, events, i));
        }
    } else if load.run(events).stage->kill_child {
        assert(prompt_missed_at(load, events, events.len() - 1));
    }
    if exists|i: int| prompt_missed_at(load, events, i) {
        let i = choose|i: int| prompt_missed_at(load, events, i);
        lemma_missed_prompt_is_final(load, events, i);
    }
}

/// A load that has missed the first prompt has failed, with its child to be killed.
proof fn lemma_missed_prompt_is_final(load: LoadView, events: Seq<LoadEvent>, i: int)
    requires
        prompt_missed_at(load, events, i),
    ensures
        load.run(events).stage is Failed,
        load.run(events).stage->kill_child,
    decreases events.len(),
{
    let earlier = events.drop_last();
    if i == events.len() - 1 {
        assert(events.take(i) =~= earlier);
    } else {
        assert(earlier.take(i) =~= events.take(i));
        lemma_missed_prompt_is_final(load, earlier, i);
    }
}

proof fn lemma_run_keeps_settings(load: LoadView, events: Seq<LoadEvent>)
    ensures
        load.run(events) == load.at(load.run(events).stage),
    decreases events.len(),
{
    if events.len() > 0 {
        lemma_run_keeps_settings(load, events.drop_last());
    }
}

// ---------------------------------------------------------------------------
// What a load asks for, and why it fails
// ---------------------------------------------------------------------------

/// What a load asks for is said in full.
pub proof fn load_actions_say_all_they_hold(action: LoadAction)
    ensures
        match action {
            LoadAction::CheckPath => action@ is CheckPath,
            LoadAction::Spawn { program, args } => action@ matches LoadActionView::Spawn {
                program: said,
                args: list,
            } && said == program@ && list.len() == args@.len() && forall|i: int|
                0 <= i < args@.len() ==> #[trigger] list[i] == args@[i]@,
            LoadAction::TakePipes => action@ is TakePipes,
            LoadAction::AwaitPrompt { timeout_secs } => action@ == (LoadActionView::AwaitPrompt {
                timeout_secs,
            }),
            LoadAction::PollChild => action@ is PollChild,
            LoadAction::Ready => action@ is Ready,
            LoadAction::Fail { error, kill_child } => action@ == (LoadActionView::Fail {
                error: error@,
                kill_child,
            }),
        },
{
}

/// Whatever happens, the program that is started is the configured one, and `larql` only where none
/// is configured; its arguments are `chat` and the vindex path; and the first prompt is awaited as
/// long as is configured, and 120 seconds where no number is configured.
pub proof fn loads_follow_their_settings(
    model_id: Seq<char>,
    vindex_path: Seq<char>,
    larql_bin: Option<Seq<char>>,
    timeout: Option<Seq<char>>,
    events: Seq<LoadEvent>,
)
    ensures
        ({
            let load = LoadView {
                model_id,
                vindex_path,
                program: match larql_bin {
                    Some(program) => program,
                    None => DEFAULT_LARQL_BIN@,
                },
                timeout_secs: load_timeout(timeout),
                stage: LoadStageView::CheckPath,
            };
            match load.run(events).action() {
                LoadActionView::Spawn { program, args } => {
                    &&& larql_bin matches Some(configured) ==> program == configured
                    &&& larql_bin is None ==> program == "larql"@
                    &&& args.len() == 2
                    &&& args[0] == "chat"@
                    &&& args[1] == vindex_path
                },
                LoadActionView::AwaitPrompt { timeout_secs } => match timeout {
                    Some(text) => match parsed_u64(text) {
                        Some(secs) => timeout_secs == secs,
                        None => timeout_secs == 120,
                    },
                    None => timeout_secs == 120,
                },
                _ => true,
            }
        }),
{
    let load = LoadView {
        model_id,
        vindex_path,
        program: match larql_bin {
            Some(program) => program,
            None => DEFAULT_LARQL_BIN@,
        },
        timeout_secs: load_timeout(timeout),
        stage: LoadStageView::CheckPath,
    };
    lemma_run_keeps_settings(load, events);
}

/// A load that meets no obstacle: the path is checked, the program is started, its pipes are taken,
/// its first prompt is awaited, its life is checked, and it is ready.
pub proof fn loads_go_step_by_step(load: LoadView)
    requires
        load.stage is CheckPath,
    ensures
        ({
            let found = load.next(LoadEvent::PathChecked { exists: true });
            let spawned = found.next(LoadEvent::Spawned);
            let piped = spawned.next(
                LoadEvent::PipesTaken { stdin: true, stdout: true, stderr: true },
            );
            let prompted = piped.next(LoadEvent::PromptSeen);
            let alive = prompted.next(LoadEvent::ChildRunning);
            &&& load.action() is CheckPath
            &&& found.action() == (LoadActionView::Spawn {
                program: load.program,
                args: seq!["chat"@, load.vindex_path],
            })
            &&& spawned.action() is TakePipes
            &&& piped.action() == (LoadActionView::AwaitPrompt { timeout_secs: load.timeout_secs })
            &&& prompted.action() is PollChild
            &&& alive.action() is Ready
        }),
{
}

/// Every obstacle ends the load with an error that names it.
pub proof fn loads_fail_with_their_reason(
    load: LoadView,
    reason: String,
    stdin: bool,
    stdout: bool,
    stderr: bool,
)
    ensures
        load.stage is CheckPath ==> load.next(LoadEvent::PathChecked { exists: false }).action()
            == (LoadActionView::Fail {
            error: "larql backend: vindex path does not exist for model '"@ + load.model_id + "': "@
                + load.vindex_path,
            kill_child: false,
        }),
        load.stage is Spawn ==> load.next(LoadEvent::SpawnFailed { reason }).action()
            == (LoadActionView::Fail {
            error: "larql backend: failed to spawn '"@ + load.program + " chat "@
                + load.vindex_path + "': "@ + reason@
                + " (set LARQL_BIN to an absolute path if '"@ + load.program
                + "' is not on PATH in this environment)"@,
            kill_child: false,
        }),
        load.stage is TakePipes && !(stdin && stdout && stderr) ==> load.next(
            LoadEvent::PipesTaken { stdin, stdout, stderr },
        ).action() == (LoadActionView::Fail {
            error: if !stdin {
                "larql backend: child stdin unavailable"@
            } else if !stdout {
                "larql backend: child stdout unavailable"@
            } else {
                "larql backend: child stderr unavailable"@
            },
            kill_child: false,
        }),
        load.stage is AwaitPrompt ==> load.next(LoadEvent::PromptMissed).action()
            == (LoadActionView::Fail {
            error: "larql backend: 'larql chat "@ + load.vindex_path
                + "' did not produce its first prompt within "@ + decimal(load.timeout_secs as nat)
                + "s (check the binary is on PATH inside the execution boundary and the vindex is valid; set LARQL_LOAD_TIMEOUT_SECS higher if the vindex is just slow to load on this host)"@,
            kill_child: true,
        }),
        load.stage is AwaitPrompt ==> load.next(LoadEvent::ChildExited { status: reason }).action()
            == load.next(LoadEvent::PromptMissed).action(),
        load.stage is PollChild ==> load.next(LoadEvent::ChildExited { status: reason }).action()
            == (LoadActionView::Fail {
            error: "larql backend: 'larql chat "@ + load.vindex_path
                + "' exited while it was loaded (status: "@ + reason@ + ")"@,
            kill_child: false,
        }),
{
}

/// An event that does not answer the current action of a load changes nothing.
pub proof fn stray_load_events_change_nothing(load: LoadView, event: LoadEvent)
    requires
        load.stage is CheckPath ==> !(event is PathChecked),
        load.stage is Spawn ==> !(event is Spawned || event is SpawnFailed),
        load.stage is TakePipes ==> !(event is PipesTaken),
        load.stage is AwaitPrompt ==> !(event is PromptSeen || event is PromptMissed || event
            is ChildExited),
        load.stage is PollChild ==> !(event is ChildRunning || event is ChildExited),
    ensures
        load.next(event) == load,
{
}

} // verus!
