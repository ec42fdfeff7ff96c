//! The pipeline executor: the state machine that turns one activation into
//! context capture, generation, the steps of the active trigger and, where
//! a step asks for it, generation for another trigger.
//!
//! The machine does no outside work. Each call of [`Pipeline::handle`]
//! takes what the application reports and returns the one thing that the
//! application does next; the application reports its outcome with the
//! next call.
//!
//! Chaining, going on to another trigger, needs no outside work: it is the
//! move from `DispatchingSteps` back to `Generating`, made inside one call
//! (see [`PipelineView::chain`]), so that no call ends in a state of its
//! own for it.

use vstd::prelude::*;
use vstd::string::*;
use crate::cancel::CancellationController;
use crate::delta::{BufferView, DeltaBuffer};
use crate::generator::{plan, planned, GenerationPlan, PlanView};
use crate::picture::{decode_picture, picture_of, OutputError, Picture, Raster};
use crate::settings::{
    clone_steps,
    Platform,
    SelectionAction,
    Settings,
    SettingsView,
    Step,
    StepView,
    TriggerView,
    ConfigurationError,
    lemma_valid_whatever_environment,
};
use crate::template::{resolve, resolved, VariableResolutionError};

verus! {

/// Key under which the clipboard of before the run is kept.
pub open spec fn clipboard_key() -> Seq<char> {
    "CLIPBOARD"@
}

/// Key under which the selected text is kept.
pub open spec fn selection_key() -> Seq<char> {
    "SELECTION"@
}

/// Key under which the text recognised on the screen is kept.
pub open spec fn screen_key() -> Seq<char> {
    "OCR"@
}

/// What is put between the selection and the generated text.
pub open spec fn separator() -> Seq<char> {
    "\n\n"@
}

/// Where a run stands.
#[derive(Clone, Copy, Debug, PartialEq, Eq, Structural)]
pub enum RunState {
    /// No run: the next activation starts one.
    Idle,
    /// The application copies the selection and reads the clipboard.
    CapturingContext,
    /// Fragments of generated text arrive.
    Generating,
    /// The steps of the active trigger are carried out.
    DispatchingSteps,
    /// The clipboard of before the run is put back.
    Restoring,
}

/// Why a run was given up.
#[derive(Debug, PartialEq, Eq)]
pub enum RunError {
    /// The prompt names a key that the environment does not hold.
    VariableResolution(VariableResolutionError),
    /// Generated text could not be put out.
    Output(OutputError),
}

/// Model of a [`RunError`].
pub enum RunErrorView {
    VariableResolution(Seq<char>),
    Output(OutputError),
}

impl View for RunError {
    type V = RunErrorView;

    open spec fn view(&self) -> RunErrorView {
        match self {
            RunError::VariableResolution(missing) => RunErrorView::VariableResolution(
                missing.key@,
            ),
            RunError::Output(error) => RunErrorView::Output(*error),
        }
    }
}

/// What the application reports to the pipeline.
#[derive(Debug, PartialEq, Eq)]
pub enum Event {
    /// The trigger of this index was activated; `clipboard` is the text
    /// on the clipboard at that moment.
    Activated { trigger: usize, clipboard: String },
    /// The selection was copied; `screen_text` is what was recognised on
    /// the screen, where that is switched on.
    ContextCaptured { selection: String, screen_text: Option<String> },
    /// The generator gave this fragment.
    Fragment(String),
    /// The generator has no more fragments.
    StreamEnded,
    /// What the pipeline asked for last was done.
    Done,
    /// What the pipeline asked for last could not be done.
    Failed,
}

/// Model of an [`Event`].
pub enum EventView {
    Activated { trigger: nat, clipboard: Seq<char> },
    ContextCaptured { selection: Seq<char>, screen_text: Option<Seq<char>> },
    Fragment(Seq<char>),
    StreamEnded,
    Done,
    Failed,
}

impl View for Event {
    type V = EventView;

    open spec fn view(&self) -> EventView {
        match self {
            Event::Activated { trigger, clipboard } => EventView::Activated {
                trigger: *trigger as nat,
                clipboard: clipboard@,
            },
            Event::ContextCaptured { selection, screen_text } => EventView::ContextCaptured {
                selection: selection@,
                screen_text: match screen_text {
                    Some(text) => Some(text@),
                    None => None,
                },
            },
            Event::Fragment(text) => EventView::Fragment(text@),
            Event::StreamEnded => EventView::StreamEnded,
            Event::Done => EventView::Done,
            Event::Failed => EventView::Failed,
        }
    }
}

/// What the application does next for the pipeline. It reports `Done` or
/// `Failed` afterwards, but for the three cases that say otherwise.
#[derive(Debug, PartialEq, Eq)]
pub enum Action {
    /// Nothing: the event was not awaited, or the run is over.
    Idle,
    /// Copy the selection and treat it as the policy says; report
    /// `ContextCaptured`.
    CaptureContext(SelectionAction),
    /// Start this generator; report its first `Fragment`, or `StreamEnded`.
    Generate(GenerationPlan),
    /// Report the next `Fragment`, or `StreamEnded`.
    NextFragment,
    /// Type this text into the active application.
    TypeText(String),
    /// Put this text on the clipboard and paste it.
    PasteText(String),
    /// Put this picture on the clipboard and paste it.
    PasteImage(Picture),
    /// Put this text back on the clipboard.
    Restore(String),
}

/// Model of an [`Action`].
pub enum ActionView {
    Idle,
    CaptureContext(SelectionAction),
    Generate(PlanView),
    NextFragment,
    TypeText(Seq<char>),
    PasteText(Seq<char>),
    PasteImage(Raster),
    Restore(Seq<char>),
}

impl View for Action {
    type V = ActionView;

    open spec fn view(&self) -> ActionView {
        match self {
            Action::Idle => ActionView::Idle,
            Action::CaptureContext(policy) => ActionView::CaptureContext(*policy),
            Action::Generate(plan) => ActionView::Generate(plan@),
            Action::NextFragment => ActionView::NextFragment,
            Action::TypeText(text) => ActionView::TypeText(text@),
            Action::PasteText(text) => ActionView::PasteText(text@),
            Action::PasteImage(picture) => ActionView::PasteImage(picture@),
            Action::Restore(text) => ActionView::Restore(text@),
        }
    }
}

impl ActionView {
    /// Whether the action writes to the clipboard for a paste.
    pub open spec fn pastes(self) -> bool {
        self is PasteText || self is PasteImage
    }
}

/// Model of a [`Pipeline`].
pub struct PipelineView {
    /// The configuration; a run changes its environment only.
    pub settings: SettingsView,
    /// The platform on which commands are started.
    pub platform: Platform,
    /// The threshold of the delta buffer of each generation.
    pub threshold: nat,
    /// Where the run stands.
    pub state: RunState,
    /// While generating: whether live output is being typed.
    pub typing: bool,
    /// Index of the active trigger.
    pub active: nat,
    /// While dispatching: index of the step whose outcome is awaited.
    pub step: nat,
    /// The trigger that a step of the active one has asked to go on with.
    pub jump: Option<nat>,
    /// The fragments of the current generation.
    pub buffer: BufferView,
    /// The clipboard of before the run.
    pub snapshot: Seq<char>,
    /// The selection that the run began with.
    pub selection: Seq<char>,
    /// Why the run was given up, if it was.
    pub failure: Option<RunErrorView>,
}

impl PipelineView {
    /// What every state of a pipeline satisfies: the configuration is
    /// valid, and during a run the active trigger and the trigger to go on
    /// with exist.
    pub open spec fn wf(self) -> bool {
        &&& self.settings.valid()
        &&& self.state != RunState::Idle ==> self.active < self.settings.triggers.len()
        &&& match self.jump {
            Some(target) => target < self.settings.triggers.len(),
            None => true,
        }
        &&& self.state == RunState::DispatchingSteps ==> self.step
            < self.trigger().next_steps.len()
        &&& self.buffer.wf()
        &&& self.buffer.threshold == self.threshold
    }

    /// The pipeline before its first run.
    pub open spec fn initial(
        settings: SettingsView,
        platform: Platform,
        threshold: nat,
    ) -> PipelineView {
        PipelineView {
            settings,
            platform,
            threshold,
            state: RunState::Idle,
            typing: false,
            active: 0,
            step: 0,
            jump: None,
            buffer: BufferView::empty(threshold),
            snapshot: Seq::empty(),
            selection: Seq::empty(),
            failure: None,
        }
    }

    /// The active trigger.
    pub open spec fn trigger(self) -> TriggerView {
        self.settings.triggers[self.active as int]
    }

    /// The pipeline with `key` set to `value` in the environment.
    pub open spec fn with_env(self, key: Seq<char>, value: Seq<char>) -> PipelineView {
        PipelineView {
            settings: SettingsView {
                environment: self.settings.environment.insert(key, value),
                ..self.settings
            },
            ..self
        }
    }

    /// The text that is pasted at the end: the whole output, after the
    /// selection and an empty line where the selection was replaced by a
    /// new line.
    pub open spec fn final_text(self) -> Seq<char> {
        if self.trigger().selection_policy() == SelectionAction::Newline {
            self.selection + separator() + self.buffer.output()
        } else {
            self.buffer.output()
        }
    }

    /// An event that is not awaited changes nothing.
    pub open spec fn ignore(self) -> (PipelineView, ActionView) {
        (self, ActionView::Idle)
    }

    /// The end of every run: the clipboard of before the run is put back.
    pub open spec fn restore(self) -> (PipelineView, ActionView) {
        (
            PipelineView { state: RunState::Restoring, typing: false, ..self },
            ActionView::Restore(self.snapshot),
        )
    }

    /// The run is given up for `error`.
    pub open spec fn fail(self, error: RunErrorView) -> (PipelineView, ActionView) {
        (PipelineView { failure: Some(error), ..self }).restore()
    }

    /// Generation for the active trigger begins: its prompt is resolved in
    /// the environment as it stands, and the generator of its process is
    /// asked for. A key that is missing gives the run up.
    pub open spec fn start(self) -> (PipelineView, ActionView) {
        let template = self.settings.prompts[self.trigger().prompt as int].prompt;
        match resolved(template, self.settings.environment) {
            Err(key) => self.fail(RunErrorView::VariableResolution(key)),
            Ok(prompt) => (
                PipelineView {
                    state: RunState::Generating,
                    typing: false,
                    step: 0,
                    jump: None,
                    buffer: BufferView::empty(self.threshold),
                    ..self
                },
                ActionView::Generate(
                    planned(
                        self.settings.processes[self.trigger().process as int],
                        prompt,
                        self.settings.environment,
                        self.platform,
                    ),
                ),
            ),
        }
    }

    /// Chaining: the run goes on with the trigger of index `target`.
    /// Generation begins for it in the environment as it stands, without a
    /// new capture of context.
    pub open spec fn chain(self, target: nat) -> (PipelineView, ActionView) {
        (PipelineView { active: target, ..self }).start()
    }

    /// A fragment has been dealt with: a request to cancel ends the run,
    /// else the next fragment is asked for.
    pub open spec fn after_fragment(self, cancel: bool) -> (PipelineView, ActionView) {
        if cancel {
            self.restore()
        } else {
            (PipelineView { typing: false, ..self }, ActionView::NextFragment)
        }
    }

    /// The steps `steps` are carried out from index `from` up to the first
    /// that needs the application. After the last, the run goes on with
    /// the trigger that a step has named, or ends.
    pub open spec fn run_steps(self, steps: Seq<StepView>, from: nat) -> (PipelineView, ActionView)
        decreases steps.len() - from,
    {
        if from >= steps.len() {
            match self.jump {
                Some(target) => self.chain(target),
                None => self.restore(),
            }
        } else {
            let waiting = PipelineView { state: RunState::DispatchingSteps, step: from, ..self };
            match steps[from as int] {
                StepView::StreamTextToScreen => {
                    let rest = self.buffer.pending.flatten();
                    let drained = PipelineView { buffer: self.buffer.finish(), ..self };
                    if rest.len() > 0 {
                        (
                            PipelineView {
                                state: RunState::DispatchingSteps,
                                step: from,
                                ..drained
                            },
                            ActionView::TypeText(rest),
                        )
                    } else {
                        drained.run_steps(steps, from + 1)
                    }
                },
                StepView::StoreAsEnvVar(key) => self.with_env(key, self.buffer.output()).run_steps(
                    steps,
                    from + 1,
                ),
                StepView::Trigger(target) => (PipelineView {
                    jump: Some(target),
                    ..self
                }).run_steps(steps, from + 1),
                StepView::WriteFinalTextToScreen => (
                    waiting,
                    ActionView::PasteText(self.final_text()),
                ),
                StepView::WriteImageToScreen => match picture_of(self.buffer.output()) {
                    Ok(raster) => (waiting, ActionView::PasteImage(raster)),
                    Err(error) => self.fail(RunErrorView::Output(error)),
                },
            }
        }
    }

    /// The steps of the active trigger from index `from`.
    pub open spec fn dispatch(self, from: nat) -> (PipelineView, ActionView) {
        self.run_steps(self.trigger().next_steps, from)
    }

    /// The pipeline after the generator has given `fragments` and nobody
    /// has asked for cancelling, with the pieces that were typed meanwhile,
    /// each reported as done.
    pub open spec fn feed(self, fragments: Seq<Seq<char>>) -> (PipelineView, Seq<Seq<char>>)
        decreases fragments.len(),
    {
        if fragments.len() == 0 {
            (self, Seq::empty())
        } else {
            let (taken, action) = self.step(EventView::Fragment(fragments[0]), false);
            match action {
                ActionView::TypeText(delta) => {
                    let (end, rest) = taken.step(EventView::Done, false).0.feed(
                        fragments.drop_first(),
                    );
                    (end, seq![delta] + rest)
                },
                _ => taken.feed(fragments.drop_first()),
            }
        }
    }

    /// The pipeline after `event`, and what the application does next.
    /// `cancel` says whether cancelling has been asked for at this moment.
    pub open spec fn step(self, event: EventView, cancel: bool) -> (PipelineView, ActionView) {
        match self.state {
            RunState::Idle => match event {
                EventView::Activated { trigger, clipboard } => {
                    if trigger < self.settings.triggers.len() {
                        let run = (PipelineView {
                            state: RunState::CapturingContext,
                            typing: false,
                            active: trigger,
                            step: 0,
                            jump: None,
                            snapshot: clipboard,
                            selection: Seq::empty(),
                            failure: None,
                            ..self
                        }).with_env(clipboard_key(), clipboard);
                        (run, ActionView::CaptureContext(run.trigger().selection_policy()))
                    } else {
                        self.ignore()
                    }
                },
                _ => self.ignore(),
            },
            RunState::CapturingContext => match event {
                EventView::ContextCaptured { selection, screen_text } => {
                    let seeded = (PipelineView { selection, ..self }).with_env(
                        selection_key(),
                        selection,
                    );
                    match screen_text {
                        Some(text) => seeded.with_env(screen_key(), text).start(),
                        None => seeded.start(),
                    }
                },
                EventView::Failed => self.fail(RunErrorView::Output(OutputError::SinkFailed)),
                _ => self.ignore(),
            },
            RunState::Generating => if self.typing {
                match event {
                    EventView::Done => self.after_fragment(cancel),
                    EventView::Failed => self.fail(RunErrorView::Output(OutputError::SinkFailed)),
                    _ => self.ignore(),
                }
            } else {
                match event {
                    EventView::Fragment(text) => {
                        let delta = self.buffer.delta(text);
                        let taken = PipelineView { buffer: self.buffer.push(text), ..self };
                        if self.trigger().streams_live() && delta.len() > 0 {
                            (PipelineView { typing: true, ..taken }, ActionView::TypeText(delta))
                        } else {
                            taken.after_fragment(cancel)
                        }
                    },
                    EventView::StreamEnded => self.dispatch(0),
                    EventView::Failed => self.fail(RunErrorView::Output(OutputError::SinkFailed)),
                    _ => self.ignore(),
                }
            },
            RunState::DispatchingSteps => match event {
                EventView::Done => self.dispatch(self.step + 1),
                EventView::Failed => self.fail(RunErrorView::Output(OutputError::SinkFailed)),
                _ => self.ignore(),
            },
            RunState::Restoring => match event {
                EventView::Done => (
                    PipelineView { state: RunState::Idle, ..self },
                    ActionView::Idle,
                ),
                EventView::Failed => (
                    PipelineView {
                        state: RunState::Idle,
                        failure: if self.failure is None {
                            Some(RunErrorView::Output(OutputError::SinkFailed))
                        } else {
                            self.failure
                        },
                        ..self
                    },
                    ActionView::Idle,
                ),
                _ => self.ignore(),
            },
        }
    }
}

/// The pipeline executor with its configuration and the state of the run.
#[derive(Debug)]
pub struct Pipeline {
    settings: Settings,
    platform: Platform,
    threshold: usize,
    state: RunState,
    typing: bool,
    active: usize,
    step: usize,
    jump: Option<usize>,
    buffer: DeltaBuffer,
    snapshot: String,
    selection: String,
    failure: Option<RunError>,
}

impl View for Pipeline {
    type V = PipelineView;

    closed spec fn view(&self) -> PipelineView {
        PipelineView {
            settings: self.settings@,
            platform: self.platform,
            threshold: self.threshold as nat,
            state: self.state,
            typing: self.typing,
            active: self.active as nat,
            step: self.step as nat,
            jump: match self.jump {
                Some(target) => Some(target as nat),
                None => None,
            },
            buffer: self.buffer@,
            snapshot: self.snapshot@,
            selection: self.selection@,
            failure: match self.failure {
                Some(error) => Some(error@),
                None => None,
            },
        }
    }
}

impl Pipeline {
    /// A pipeline for `settings`, if every index in them refers to
    /// something; else the first fault. Its delta buffers release what has
    /// gathered above `threshold` fragments.
    pub fn with_threshold(settings: Settings, platform: Platform, threshold: usize) -> (made:
        Result<Pipeline, ConfigurationError>)
        ensures
            made is Ok <==> settings@.valid(),
            match made {
                Ok(pipeline) => pipeline@ == PipelineView::initial(
                    settings@,
                    platform,
                    threshold as nat,
                ) && pipeline@.wf(),
                Err(fault) => settings@.first_fault(fault),
            },
    {
        match settings.validate() {
            Err(fault) => Err(fault),
            Ok(_) => Ok(
                Pipeline {
                    settings,
                    platform,
                    threshold,
                    state: RunState::Idle,
                    typing: false,
                    active: 0,
                    step: 0,
                    jump: None,
                    buffer: DeltaBuffer::new(threshold),
                    snapshot: String::new(),
                    selection: String::new(),
                    failure: None,
                },
            ),
        }
    }

    /// A pipeline for `settings` with the usual threshold.
    pub fn new(settings: Settings, platform: Platform) -> (made: Result<
        Pipeline,
        ConfigurationError,
    >)
        ensures
            made is Ok <==> settings@.valid(),
            match made {
                Ok(pipeline) => pipeline@ == PipelineView::initial(
                    settings@,
                    platform,
                    crate::delta::DEFAULT_THRESHOLD as nat,
                ) && pipeline@.wf(),
                Err(fault) => settings@.first_fault(fault),
            },
    {
        Pipeline::with_threshold(settings, platform, crate::delta::DEFAULT_THRESHOLD)
    }

    /// A pipeline for the configuration that is used where none has been
    /// saved. That configuration is valid, so this cannot fail.
    pub fn with_defaults(platform: Platform) -> (pipeline: Pipeline)
        ensures
            pipeline@ == PipelineView::initial(
                crate::settings::default_settings(platform),
                platform,
                crate::delta::DEFAULT_THRESHOLD as nat,
            ),
            pipeline@.wf(),
    {
        proof {
            crate::settings::lemma_default_settings_valid(platform);
        }
        match Pipeline::new(Settings::for_platform(platform), platform) {
            Ok(pipeline) => pipeline,
            Err(_) => vstd::pervasive::unreached(),
        }
    }

    /// Where the run stands.
    pub fn state(&self) -> (state: RunState)
        ensures
            state == self@.state,
    {
        self.state
    }

    /// Whether no run is under way.
    pub fn is_idle(&self) -> (idle: bool)
        ensures
            idle == (self@.state == RunState::Idle),
    {
        self.state == RunState::Idle
    }

    /// Index of the active trigger.
    pub fn active_trigger(&self) -> (index: usize)
        ensures
            index == self@.active,
    {
        self.active
    }

    /// The configuration, with the environment as the run has left it.
    pub fn settings(&self) -> (settings: &Settings)
        ensures
            settings@ == self@.settings,
    {
        &self.settings
    }

    /// Why the last run was given up, if it was.
    pub fn failure(&self) -> (failure: &Option<RunError>)
        ensures
            match failure {
                Some(error) => self@.failure == Some(error@),
                None => self@.failure is None,
            },
    {
        &self.failure
    }

    /// The whole text of the current generation.
    pub fn whole_output(&self) -> (text: String)
        ensures
            text@ == self@.buffer.output(),
    {
        self.buffer.whole_output()
    }

    /// Puts the clipboard of before the run back.
    fn restore(&mut self) -> (action: Action)
        ensures
            (final(self)@, action@) == old(self)@.restore(),
    {
        self.state = RunState::Restoring;
        self.typing = false;
        Action::Restore(self.snapshot.clone())
    }

    /// Gives the run up for `error`.
    fn fail(&mut self, error: RunError) -> (action: Action)
        ensures
            (final(self)@, action@) == old(self)@.fail(error@),
    {
        self.failure = Some(error);
        self.restore()
    }

    /// Begins generation for the active trigger.
    fn start(&mut self) -> (action: Action)
        requires
            old(self)@.settings.valid(),
            old(self)@.active < old(self)@.settings.triggers.len(),
        ensures
            (final(self)@, action@) == old(self)@.start(),
    {
        let ghost before = self@;
        assert(before.settings.sound_trigger(before.active as int));
        let trigger = &self.settings.triggers[self.active];
        assert(trigger@ == before.trigger());
        let custom = &self.settings.prompts[trigger.prompt];
        assert(custom@ == before.settings.prompts[before.trigger().prompt as int]);
        match resolve(custom.prompt.as_str(), &self.settings.environment) {
            Err(missing) => self.fail(RunError::VariableResolution(missing)),
            Ok(prompt) => {
                let process = &self.settings.processes[trigger.process];
                assert(process@ == before.settings.processes[before.trigger().process as int]);
                let made = plan(process, prompt, &self.settings.environment, self.platform);
                self.state = RunState::Generating;
                self.typing = false;
                self.step = 0;
                self.jump = None;
                self.buffer = DeltaBuffer::new(self.threshold);
                Action::Generate(made)
            },
        }
    }

    /// Ends the run on a request to cancel, else asks for the next
    /// fragment.
    fn after_fragment(&mut self, cancel: bool) -> (action: Action)
        ensures
            (final(self)@, action@) == old(self)@.after_fragment(cancel),
    {
        if cancel {
            self.restore()
        } else {
            self.typing = false;
            Action::NextFragment
        }
    }

    /// The text that is pasted at the end.
    fn final_text(&self) -> (text: String)
        requires
            self@.active < self@.settings.triggers.len(),
        ensures
            text@ == self@.final_text(),
    {
        let trigger = &self.settings.triggers[self.active];
        assert(trigger@ == self@.trigger());
        let mut text = String::new();
        if trigger.selection_policy() == SelectionAction::Newline {
            text.append(self.selection.as_str());
            text.append("\n\n");
        }
        let whole = self.buffer.whole_output();
        text.append(whole.as_str());
        assert(Seq::<char>::empty() + self@.buffer.output() =~= self@.buffer.output());
        assert((Seq::<char>::empty() + self@.selection) + separator() + self@.buffer.output()
            =~= self@.selection + separator() + self@.buffer.output());
        text
    }

    /// Carries out the steps of the active trigger from index `from` up to
    /// the first that needs the application.
    fn dispatch(&mut self, from: usize) -> (action: Action)
        requires
            old(self)@.wf(),
            old(self)@.active < old(self)@.settings.triggers.len(),
            from <= old(self)@.trigger().next_steps.len(),
        ensures
            (final(self)@, action@) == old(self)@.dispatch(from as nat),
    {
        let ghost before = self@;
        let ghost plan_steps = before.trigger().next_steps;
        let steps = clone_steps(&self.settings.triggers[self.active].next_steps);
        assert(steps.deep_view() == plan_steps);
        assert(before.settings.sound_trigger(before.active as int));
        let count = steps.len();
        let mut k: usize = from;
        while k < count
            invariant
                before == old(self)@,
                plan_steps == before.trigger().next_steps,
                count == steps.len(),
                steps.deep_view() == plan_steps,
                from <= k <= count,
                self@.settings.valid(),
                self@.settings.triggers == before.settings.triggers,
                self@.active == before.active,
                self@.active < self@.settings.triggers.len(),
                match self@.jump {
                    Some(target) => target < self@.settings.triggers.len(),
                    None => true,
                },
                forall|s: int|
                    0 <= s < plan_steps.len() ==> (#[trigger] plan_steps[s]).sound(
                        before.settings.triggers.len(),
                    ),
                before.run_steps(plan_steps, from as nat) == self@.run_steps(plan_steps, k as nat),
            decreases count - k,
        {
            let ghost here = self@;
            assert(steps.deep_view()[k as int] == steps[k as int]@);
            match &steps[k] {
                Step::StreamTextToScreen => {
                    let rest = self.buffer.finish();
                    if !rest.as_str().is_empty() {
                        self.state = RunState::DispatchingSteps;
                        self.step = k;
                        return Action::TypeText(rest);
                    }
                },
                Step::StoreAsEnvVar(key) => {
                    let whole = self.buffer.whole_output();
                    self.settings.add_env_var(key.clone(), whole);
                    proof {
                        assert(self@ == here.with_env(key@, here.buffer.output()));
                        lemma_valid_whatever_environment(here.settings, self@.settings.environment);
                    }
                },
                Step::Trigger(target) => {
                    assert(plan_steps[k as int].sound(before.settings.triggers.len()));
                    self.jump = Some(*target);
                },
                Step::WriteFinalTextToScreen => {
                    let text = self.final_text();
                    self.state = RunState::DispatchingSteps;
                    self.step = k;
                    return Action::PasteText(text);
                },
                Step::WriteImageToScreen => {
                    let whole = self.buffer.whole_output();
                    match decode_picture(whole.as_str()) {
                        Ok(picture) => {
                            self.state = RunState::DispatchingSteps;
                            self.step = k;
                            return Action::PasteImage(picture);
                        },
                        Err(error) => {
                            return self.fail(RunError::Output(error));
                        },
                    }
                },
            }
            k += 1;
        }
        match self.jump {
            Some(target) => {
                self.active = target;
                self.start()
            },
            None => self.restore(),
        }
    }

    /// Takes in what the application reports and returns what it does
    /// next. `cancel` says whether cancelling has been asked for at the
    /// moment of the call.
    pub fn handle(&mut self, event: Event, cancel: bool) -> (action: Action)
        requires
            old(self)@.wf(),
        ensures
            (final(self)@, action@) == old(self)@.step(event@, cancel),
            final(self)@.wf(),
    {
        proof {
            lemma_step_keeps_wf(self@, event@, cancel);
        }
        match self.state {
            RunState::Idle => match event {
                Event::Activated { trigger, clipboard } => {
                    if trigger < self.settings.triggers.len() {
                        self.state = RunState::CapturingContext;
                        self.typing = false;
                        self.active = trigger;
                        self.step = 0;
                        self.jump = None;
                        self.snapshot = clipboard.clone();
                        self.selection = String::new();
                        self.failure = None;
                        self.settings.add_env_var("CLIPBOARD".to_owned(), clipboard);
                        let policy = self.settings.triggers[trigger].selection_policy();
                        Action::CaptureContext(policy)
                    } else {
                        Action::Idle
                    }
                },
                _ => Action::Idle,
            },
            RunState::CapturingContext => match event {
                Event::ContextCaptured { selection, screen_text } => {
                    self.selection = selection.clone();
                    self.settings.add_env_var("SELECTION".to_owned(), selection);
                    match screen_text {
                        Some(text) => {
                            self.settings.add_env_var("OCR".to_owned(), text);
                        },
                        None => {},
                    }
                    proof {
                        lemma_valid_whatever_environment(
                            old(self)@.settings,
                            self@.settings.environment,
                        );
                    }
                    self.start()
                },
                Event::Failed => self.fail(RunError::Output(OutputError::SinkFailed)),
                _ => Action::Idle,
            },
            RunState::Generating => if self.typing {
                match event {
                    Event::Done => self.after_fragment(cancel),
                    Event::Failed => self.fail(RunError::Output(OutputError::SinkFailed)),
                    _ => Action::Idle,
                }
            } else {
                match event {
                    Event::Fragment(text) => {
                        let live = self.settings.triggers[self.active].streams_live();
                        let delta = self.buffer.push(text);
                        if live && !delta.as_str().is_empty() {
                            self.typing = true;
                            Action::TypeText(delta)
                        } else {
                            self.after_fragment(cancel)
                        }
                    },
                    Event::StreamEnded => self.dispatch(0),
                    Event::Failed => self.fail(RunError::Output(OutputError::SinkFailed)),
                    _ => Action::Idle,
                }
            },
            RunState::DispatchingSteps => match event {
                Event::Done => {
                    let count = self.settings.triggers[self.active].next_steps.len();
                    assert(count == self@.trigger().next_steps.len());
                    let from = self.step + 1;
                    self.dispatch(from)
                },
                Event::Failed => self.fail(RunError::Output(OutputError::SinkFailed)),
                _ => Action::Idle,
            },
            RunState::Restoring => match event {
                Event::Done => {
                    self.state = RunState::Idle;
                    Action::Idle
                },
                Event::Failed => {
                    self.state = RunState::Idle;
                    if self.failure.is_none() {
                        self.failure = Some(RunError::Output(OutputError::SinkFailed));
                    }
                    Action::Idle
                },
                _ => Action::Idle,
            },
        }
    }

    /// Takes in what the application reports, as [`Pipeline::handle`] does,
    /// with cancelling as `controller` has it at the moment of the call.
    /// Where the call leaves no run under way, the controller is reset: no
    /// key counts as held, and a request to cancel is withdrawn.
    pub fn handle_with(&mut self, event: Event, controller: &mut CancellationController) -> (action:
        Action)
        requires
            old(self)@.wf(),
        ensures
            (final(self)@, action@) == old(self)@.step(event@, old(controller)@.cancel),
            final(self)@.wf(),
            final(controller)@ == if final(self)@.state == RunState::Idle {
                old(controller)@.reset()
            } else {
                old(controller)@
            },
    {
        let cancel = controller.cancel_requested();
        let action = self.handle(event, cancel);
        if self.is_idle() {
            controller.reset();
        }
        action
    }
}

/// Setting a key of the environment leaves a valid configuration valid.
pub proof fn lemma_with_env_keeps_wf(pipeline: PipelineView, key: Seq<char>, value: Seq<char>)
    requires
        pipeline.wf(),
    ensures
        pipeline.with_env(key, value).wf(),
{
    lemma_valid_whatever_environment(
        pipeline.settings,
        pipeline.settings.environment.insert(key, value),
    );
}

/// Beginning a generation keeps the pipeline well formed.
pub proof fn lemma_start_keeps_wf(pipeline: PipelineView)
    requires
        pipeline.settings.valid(),
        pipeline.active < pipeline.settings.triggers.len(),
        pipeline.buffer.wf(),
        pipeline.buffer.threshold == pipeline.threshold,
        match pipeline.jump {
            Some(target) => target < pipeline.settings.triggers.len(),
            None => true,
        },
    ensures
        pipeline.start().0.wf(),
{
}

/// Carrying out steps keeps the pipeline well formed.
pub proof fn lemma_run_steps_keeps_wf(pipeline: PipelineView, steps: Seq<StepView>, from: nat)
    requires
        pipeline.wf(),
        pipeline.active < pipeline.settings.triggers.len(),
        steps == pipeline.trigger().next_steps,
    ensures
        pipeline.run_steps(steps, from).0.wf(),
    decreases steps.len() - from,
{
    assert(pipeline.settings.sound_trigger(pipeline.active as int));
    if from >= steps.len() {
        match pipeline.jump {
            Some(target) => {
                lemma_start_keeps_wf(PipelineView { active: target, ..pipeline });
            },
            None => {},
        }
    } else {
        match steps[from as int] {
            StepView::StreamTextToScreen => {
                crate::delta::lemma_finish(pipeline.buffer);
                let drained = PipelineView { buffer: pipeline.buffer.finish(), ..pipeline };
                lemma_run_steps_keeps_wf(drained, steps, from + 1);
            },
            StepView::StoreAsEnvVar(key) => {
                lemma_with_env_keeps_wf(pipeline, key, pipeline.buffer.output());
                lemma_run_steps_keeps_wf(
                    pipeline.with_env(key, pipeline.buffer.output()),
                    steps,
                    from + 1,
                );
            },
            StepView::Trigger(target) => {
                assert(steps[from as int].sound(pipeline.settings.triggers.len()));
                lemma_run_steps_keeps_wf(
                    PipelineView { jump: Some(target), ..pipeline },
                    steps,
                    from + 1,
                );
            },
            StepView::WriteFinalTextToScreen => {},
            StepView::WriteImageToScreen => {},
        }
    }
}

/// Whatever is reported, and whether or not cancelling was asked for, the
/// pipeline stays well formed: its configuration stays valid, and during a
/// run one trigger that exists is the active one.
pub proof fn lemma_step_keeps_wf(pipeline: PipelineView, event: EventView, cancel: bool)
    requires
        pipeline.wf(),
    ensures
        pipeline.step(event, cancel).0.wf(),
{
    match pipeline.state {
        RunState::Idle => match event {
            EventView::Activated { trigger, clipboard } => {
                if trigger < pipeline.settings.triggers.len() {
                    let armed = PipelineView {
                        state: RunState::CapturingContext,
                        typing: false,
                        active: trigger,
                        step: 0,
                        jump: None,
                        snapshot: clipboard,
                        selection: Seq::empty(),
                        failure: None,
                        ..pipeline
                    };
                    lemma_with_env_keeps_wf(armed, clipboard_key(), clipboard);
                }
            },
            _ => {},
        },
        RunState::CapturingContext => match event {
            EventView::ContextCaptured { selection, screen_text } => {
                let named = PipelineView { selection, ..pipeline };
                lemma_with_env_keeps_wf(named, selection_key(), selection);
                let seeded = named.with_env(selection_key(), selection);
                match screen_text {
                    Some(text) => {
                        lemma_with_env_keeps_wf(seeded, screen_key(), text);
                        lemma_start_keeps_wf(seeded.with_env(screen_key(), text));
                    },
                    None => {
                        lemma_start_keeps_wf(seeded);
                    },
                }
            },
            _ => {},
        },
        RunState::Generating => {
            if !pipeline.typing {
                match event {
                    EventView::Fragment(text) => {
                        crate::delta::lemma_push(pipeline.buffer, text);
                    },
                    EventView::StreamEnded => {
                        lemma_run_steps_keeps_wf(pipeline, pipeline.trigger().next_steps, 0);
                    },
                    _ => {},
                }
            }
        },
        RunState::DispatchingSteps => match event {
            EventView::Done => {
                lemma_run_steps_keeps_wf(
                    pipeline,
                    pipeline.trigger().next_steps,
                    pipeline.step + 1,
                );
            },
            _ => {},
        },
        RunState::Restoring => {},
    }
}

/// An activation during a run is ignored.
pub proof fn lemma_activation_during_run_is_ignored(
    pipeline: PipelineView,
    trigger: nat,
    clipboard: Seq<char>,
    cancel: bool,
)
    requires
        pipeline.state != RunState::Idle,
    ensures
        pipeline.step(EventView::Activated { trigger, clipboard }, cancel) == (
            pipeline,
            ActionView::Idle,
        ),
{
}

/// Cancelling between two fragments ends the run. Asked for when a
/// fragment arrives, it is seen once the fragment has been dealt with:
/// at once, or after the live output of that fragment was typed. Then no
/// further fragment is asked for, no step is carried out (the environment
/// stays as it was and nothing is pasted), and the clipboard of before the
/// run is put back.
pub proof fn lemma_cancel_ends_run(pipeline: PipelineView, fragment: Seq<char>)
    requires
        pipeline.state == RunState::Generating,
        !pipeline.typing,
    ensures
        ({
            let (taken, first) = pipeline.step(EventView::Fragment(fragment), true);
            let (typed, second) = taken.step(EventView::Done, true);
            &&& taken.settings == pipeline.settings
            &&& taken.snapshot == pipeline.snapshot
            &&& !first.pastes()
            &&& first != ActionView::NextFragment
            &&& if first is TypeText {
                &&& first == ActionView::TypeText(pipeline.buffer.delta(fragment))
                &&& taken.state == RunState::Generating
                &&& typed.state == RunState::Restoring
                &&& typed.settings == pipeline.settings
                &&& second == ActionView::Restore(pipeline.snapshot)
            } else {
                &&& taken.state == RunState::Restoring
                &&& first == ActionView::Restore(pipeline.snapshot)
            }
        }),
{
}

/// Once the clipboard has been put back, the run is over.
pub proof fn lemma_restoring_ends_in_idle(pipeline: PipelineView, cancel: bool)
    requires
        pipeline.state == RunState::Restoring,
    ensures
        pipeline.step(EventView::Done, cancel).0.state == RunState::Idle,
        pipeline.step(EventView::Failed, cancel).0.state == RunState::Idle,
        pipeline.step(EventView::Done, cancel).1 == ActionView::Idle,
        pipeline.step(EventView::Failed, cancel).1 == ActionView::Idle,
{
}

/// A picture step on text that is no base64 gives the run up: nothing is
/// pasted, the failure is recorded, and the clipboard of before the run is
/// put back.
pub proof fn lemma_picture_step_refuses_bad_base64(
    pipeline: PipelineView,
    steps: Seq<StepView>,
    at: nat,
)
    requires
        at < steps.len(),
        steps[at as int] == StepView::WriteImageToScreen,
        crate::picture::base64_decoded(crate::text::trimmed(pipeline.buffer.output())) is None,
    ensures
        pipeline.run_steps(steps, at) == (
            PipelineView {
                state: RunState::Restoring,
                typing: false,
                failure: Some(RunErrorView::Output(OutputError::InvalidBase64)),
                ..pipeline
            },
            ActionView::Restore(pipeline.snapshot),
        ),
{
}

/// A step that keeps the output under a key, followed by a step that goes
/// on to another trigger, hands the output on: the prompt of that trigger
/// is resolved in the environment in which the key has the whole output,
/// within the same run and without a new capture of context.
pub proof fn lemma_store_then_jump(pipeline: PipelineView, key: Seq<char>, target: nat)
    requires
        pipeline.trigger().next_steps == seq![
            StepView::StoreAsEnvVar(key),
            StepView::Trigger(target),
        ],
    ensures
        pipeline.dispatch(0) == (PipelineView {
            jump: Some(target),
            ..pipeline.with_env(key, pipeline.buffer.output())
        }).chain(target),
        pipeline.dispatch(0).0.snapshot == pipeline.snapshot,
        pipeline.dispatch(0).0.selection == pipeline.selection,
{
    let steps = pipeline.trigger().next_steps;
    let stored = pipeline.with_env(key, pipeline.buffer.output());
    let marked = PipelineView { jump: Some(target), ..stored };
    assert(pipeline.run_steps(steps, 0) == stored.run_steps(steps, 1));
    assert(stored.run_steps(steps, 1) == marked.run_steps(steps, 2));
    assert(marked.run_steps(steps, 2) == marked.chain(target));
}

/// The steps of a trigger change the environment and nothing else of the
/// configuration.
pub proof fn lemma_run_steps_keeps_configuration(
    pipeline: PipelineView,
    steps: Seq<StepView>,
    from: nat,
)
    ensures
        pipeline.run_steps(steps, from).0.settings.processes == pipeline.settings.processes,
        pipeline.run_steps(steps, from).0.settings.prompts == pipeline.settings.prompts,
        pipeline.run_steps(steps, from).0.settings.triggers == pipeline.settings.triggers,
        pipeline.run_steps(steps, from).0.snapshot == pipeline.snapshot,
        pipeline.run_steps(steps, from).0.selection == pipeline.selection,
        pipeline.run_steps(steps, from).0.platform == pipeline.platform,
        pipeline.run_steps(steps, from).0.threshold == pipeline.threshold,
    decreases steps.len() - from,
{
    if from < steps.len() {
        match steps[from as int] {
            StepView::StreamTextToScreen => {
                lemma_run_steps_keeps_configuration(
                    PipelineView { buffer: pipeline.buffer.finish(), ..pipeline },
                    steps,
                    from + 1,
                );
            },
            StepView::StoreAsEnvVar(key) => {
                lemma_run_steps_keeps_configuration(
                    pipeline.with_env(key, pipeline.buffer.output()),
                    steps,
                    from + 1,
                );
            },
            StepView::Trigger(target) => {
                lemma_run_steps_keeps_configuration(
                    PipelineView { jump: Some(target), ..pipeline },
                    steps,
                    from + 1,
                );
            },
            StepView::WriteFinalTextToScreen => {},
            StepView::WriteImageToScreen => {},
        }
    }
}

/// Whatever is reported, processes, prompts and triggers stay as they
/// were configured: a run writes to the environment only. The clipboard of
/// before the run is fixed by the activation.
pub proof fn lemma_step_keeps_configuration(pipeline: PipelineView, event: EventView, cancel: bool)
    ensures
        pipeline.step(event, cancel).0.settings.processes == pipeline.settings.processes,
        pipeline.step(event, cancel).0.settings.prompts == pipeline.settings.prompts,
        pipeline.step(event, cancel).0.settings.triggers == pipeline.settings.triggers,
        pipeline.step(event, cancel).0.platform == pipeline.platform,
        pipeline.step(event, cancel).0.threshold == pipeline.threshold,
        pipeline.state != RunState::Idle ==> pipeline.step(event, cancel).0.snapshot
            == pipeline.snapshot,
{
    lemma_run_steps_keeps_configuration(pipeline, pipeline.trigger().next_steps, 0);
    lemma_run_steps_keeps_configuration(
        pipeline,
        pipeline.trigger().next_steps,
        pipeline.step + 1,
    );
}

/// While text is generated, what the pipeline has asked to type is all of
/// the output but for the fragments that are still gathered: together they
/// are the whole output, so that the live output, with the last piece that
/// the step of live output types, is the whole output.
pub proof fn lemma_fragment_keeps_output(pipeline: PipelineView, fragment: Seq<char>, cancel: bool)
    requires
        pipeline.wf(),
        pipeline.state == RunState::Generating,
        !pipeline.typing,
    ensures
        ({
            let next = pipeline.step(EventView::Fragment(fragment), cancel).0;
            &&& next.buffer == pipeline.buffer.push(fragment)
            &&& next.buffer.output() == pipeline.buffer.output() + fragment
            &&& next.buffer.released() == pipeline.buffer.released() + pipeline.buffer.delta(
                fragment,
            )
            &&& next.buffer.released() + next.buffer.pending.flatten() == next.buffer.output()
        }),
{
    crate::delta::lemma_push(pipeline.buffer, fragment);
    crate::delta::lemma_nothing_lost(pipeline.buffer.push(fragment));
}

/// Live output loses nothing and repeats nothing. While the fragments of a
/// generation arrive at a trigger with a step of live output, the pieces
/// that are typed, followed by what is still gathered, are the fragments
/// put together; what is gathered is what the step of live output types
/// at the end. A trigger without such a step types nothing.
pub proof fn lemma_live_output_is_the_output(pipeline: PipelineView, fragments: Seq<Seq<char>>)
    requires
        pipeline.wf(),
        pipeline.state == RunState::Generating,
        !pipeline.typing,
    ensures
        ({
            let (end, typed) = pipeline.feed(fragments);
            &&& end.wf()
            &&& end.state == RunState::Generating
            &&& !end.typing
            &&& end.settings == pipeline.settings
            &&& end.active == pipeline.active
            &&& end.buffer == crate::delta::after(pipeline.buffer, fragments)
            &&& end.buffer.output() == pipeline.buffer.output() + fragments.flatten()
            &&& if pipeline.trigger().streams_live() {
                &&& end.buffer.released() == pipeline.buffer.released() + typed.flatten()
                &&& pipeline.buffer.released() + typed.flatten() + end.buffer.pending.flatten()
                    == pipeline.buffer.output() + fragments.flatten()
            } else {
                typed.len() == 0
            }
        }),
    decreases fragments.len(),
{
    let (end, typed) = pipeline.feed(fragments);
    if fragments.len() == 0 {
        assert(fragments.flatten() =~= Seq::<char>::empty());
        assert(typed.flatten() =~= Seq::<char>::empty());
        assert(pipeline.buffer.output() + Seq::<char>::empty() =~= pipeline.buffer.output());
        assert(pipeline.buffer.released() + Seq::<char>::empty() =~= pipeline.buffer.released());
        crate::delta::lemma_nothing_lost(pipeline.buffer);
    } else {
        let first = fragments[0];
        let rest = fragments.drop_first();
        let delta = pipeline.buffer.delta(first);
        let (taken, action) = pipeline.step(EventView::Fragment(first), false);
        let next = if action is TypeText {
            taken.step(EventView::Done, false).0
        } else {
            taken
        };
        crate::delta::lemma_push(pipeline.buffer, first);
        assert(next == PipelineView { buffer: pipeline.buffer.push(first), ..pipeline });
        lemma_live_output_is_the_output(next, rest);
        let (tail_end, tail_typed) = next.feed(rest);
        assert(seq![first] + rest =~= fragments);
        vstd::seq_lib::lemma_flatten_concat(seq![first], rest);
        seq![first].lemma_flatten_one_element();
        assert(pipeline.buffer.output() + (first + rest.flatten()) =~= (pipeline.buffer.output()
            + first) + rest.flatten());
        if pipeline.trigger().streams_live() {
            if action is TypeText {
                vstd::seq_lib::lemma_flatten_concat(seq![delta], tail_typed);
                seq![delta].lemma_flatten_one_element();
            } else {
                assert(delta =~= Seq::<char>::empty());
                assert(typed == tail_typed);
                assert(delta + tail_typed.flatten() =~= tail_typed.flatten());
            }
            assert(typed.flatten() =~= delta + tail_typed.flatten());
            assert((pipeline.buffer.released() + delta) + tail_typed.flatten()
                =~= pipeline.buffer.released() + typed.flatten());
        }
    }
}

/// From a fresh generation on, the pieces that are typed and the piece that
/// the step of live output types at the end are the fragments of the
/// generator put together.
pub proof fn lemma_fresh_live_output(pipeline: PipelineView, fragments: Seq<Seq<char>>)
    requires
        pipeline.wf(),
        pipeline.state == RunState::Generating,
        !pipeline.typing,
        pipeline.trigger().streams_live(),
        pipeline.buffer == BufferView::empty(pipeline.threshold),
    ensures
        ({
            let (end, typed) = pipeline.feed(fragments);
            typed.flatten() + end.buffer.pending.flatten() == fragments.flatten()
        }),
{
    lemma_live_output_is_the_output(pipeline, fragments);
    let (end, typed) = pipeline.feed(fragments);
    assert(pipeline.buffer.whole.take(0) =~= Seq::<Seq<char>>::empty());
    assert(pipeline.buffer.released() =~= Seq::<char>::empty());
    assert(pipeline.buffer.output() =~= Seq::<char>::empty());
    assert(Seq::<char>::empty() + typed.flatten() =~= typed.flatten());
    assert(Seq::<char>::empty() + fragments.flatten() =~= fragments.flatten());
}

} // verus!
