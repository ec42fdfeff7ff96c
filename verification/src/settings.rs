//! The configuration model: processes, prompts, triggers and their steps,
//! together with the environment map that a run reads and writes.

use vstd::prelude::*;
use crate::environment::Environment;
use crate::text::clone_texts;

verus! {

/// The operating systems between which the defaults differ.
#[derive(Clone, Copy, Debug, PartialEq, Eq, Structural)]
pub enum Platform {
    MacOs,
    Windows,
    Other,
}

/// Name of the environment entry that selects the model of the generation
/// service.
pub open spec fn model_key() -> Seq<char> {
    "OLLAMA_MODEL"@
}

/// The model that is asked where the environment names none.
pub open spec fn default_model() -> Seq<char> {
    "openhermes2.5-mistral"@
}

/// The generation service and its model.
#[derive(Debug)]
pub struct Ollama {
    pub model: String,
}

impl View for Ollama {
    type V = Seq<char>;

    open spec fn view(&self) -> Seq<char> {
        self.model@
    }
}

impl Default for Ollama {
    fn default() -> (service: Ollama)
        ensures
            service@ == default_model(),
    {
        Ollama { model: "openhermes2.5-mistral".to_owned() }
    }
}

impl Clone for Ollama {
    fn clone(&self) -> (copy: Ollama)
        ensures
            copy@ == self@,
    {
        Ollama { model: self.model.clone() }
    }
}

/// How a prompt becomes generated text.
#[derive(Debug)]
pub enum ProcessType {
    /// The generation service.
    Ollama,
    /// A command whose last argument is the prompt. With no words at all,
    /// the prompt is run as a script of the platform's shell.
    Command(Vec<String>),
}

/// Model of a [`ProcessType`].
pub enum ProcessView {
    Ollama,
    Command(Seq<Seq<char>>),
}

impl View for ProcessType {
    type V = ProcessView;

    open spec fn view(&self) -> ProcessView {
        match self {
            ProcessType::Ollama => ProcessView::Ollama,
            ProcessType::Command(words) => ProcessView::Command(words.deep_view()),
        }
    }
}

impl DeepView for ProcessType {
    type V = ProcessView;

    open spec fn deep_view(&self) -> ProcessView {
        self.view()
    }
}

impl Clone for ProcessType {
    fn clone(&self) -> (copy: ProcessType)
        ensures
            copy@ == self@,
    {
        match self {
            ProcessType::Ollama => ProcessType::Ollama,
            ProcessType::Command(words) => ProcessType::Command(clone_texts(words)),
        }
    }
}

/// What is done with generated text.
#[derive(Debug)]
pub enum Step {
    /// Type the text into the active application while it arrives.
    StreamTextToScreen,
    /// Paste the whole text once it is complete.
    WriteFinalTextToScreen,
    /// Read the whole text as a base64 image and paste the picture.
    WriteImageToScreen,
    /// Keep the whole text in the environment under this key.
    StoreAsEnvVar(String),
    /// Go on with the trigger of this index.
    Trigger(usize),
}

/// Model of a [`Step`].
pub enum StepView {
    StreamTextToScreen,
    WriteFinalTextToScreen,
    WriteImageToScreen,
    StoreAsEnvVar(Seq<char>),
    Trigger(nat),
}

impl View for Step {
    type V = StepView;

    open spec fn view(&self) -> StepView {
        match self {
            Step::StreamTextToScreen => StepView::StreamTextToScreen,
            Step::WriteFinalTextToScreen => StepView::WriteFinalTextToScreen,
            Step::WriteImageToScreen => StepView::WriteImageToScreen,
            Step::StoreAsEnvVar(key) => StepView::StoreAsEnvVar(key@),
            Step::Trigger(index) => StepView::Trigger(*index as nat),
        }
    }
}

impl DeepView for Step {
    type V = StepView;

    open spec fn deep_view(&self) -> StepView {
        self.view()
    }
}

impl Clone for Step {
    fn clone(&self) -> (copy: Step)
        ensures
            copy@ == self@,
    {
        match self {
            Step::StreamTextToScreen => Step::StreamTextToScreen,
            Step::WriteFinalTextToScreen => Step::WriteFinalTextToScreen,
            Step::WriteImageToScreen => Step::WriteImageToScreen,
            Step::StoreAsEnvVar(key) => Step::StoreAsEnvVar(key.clone()),
            Step::Trigger(index) => Step::Trigger(*index),
        }
    }
}

/// What happens to the selected text once it has been copied.
#[derive(Clone, Copy, Debug, PartialEq, Eq, Structural)]
pub enum SelectionAction {
    /// It is deleted.
    Remove,
    /// It is deleted, and pasted back in front of the final text, followed
    /// by an empty line.
    Newline,
    /// It stays.
    Nothing,
}

impl SelectionAction {
    /// Whether the selection is deleted after it has been copied.
    pub open spec fn deletes(self) -> bool {
        self != SelectionAction::Nothing
    }

    /// Whether the selection is deleted after it has been copied.
    pub fn deletes_selection(&self) -> (r: bool)
        ensures
            r == self.deletes(),
    {
        match self {
            SelectionAction::Remove => true,
            SelectionAction::Newline => true,
            SelectionAction::Nothing => false,
        }
    }
}

/// A named prompt template.
#[derive(Debug)]
pub struct CustomPrompt {
    pub name: String,
    pub prompt: String,
}

/// Model of a [`CustomPrompt`].
pub struct PromptView {
    pub name: Seq<char>,
    pub prompt: Seq<char>,
}

impl View for CustomPrompt {
    type V = PromptView;

    open spec fn view(&self) -> PromptView {
        PromptView { name: self.name@, prompt: self.prompt@ }
    }
}

impl DeepView for CustomPrompt {
    type V = PromptView;

    open spec fn deep_view(&self) -> PromptView {
        self.view()
    }
}

impl Clone for CustomPrompt {
    fn clone(&self) -> (copy: CustomPrompt)
        ensures
            copy@ == self@,
    {
        CustomPrompt { name: self.name.clone(), prompt: self.prompt.clone() }
    }
}

/// One activation unit: a process, a prompt, the steps that follow and the
/// handling of the selection.
#[derive(Debug)]
pub struct Trigger {
    pub trigger_with_shortcut: Option<String>,
    pub process: usize,
    pub prompt: usize,
    pub next_steps: Vec<Step>,
    pub selection_action: Option<SelectionAction>,
}

/// Model of a [`Trigger`].
pub struct TriggerView {
    pub trigger_with_shortcut: Option<Seq<char>>,
    pub process: nat,
    pub prompt: nat,
    pub next_steps: Seq<StepView>,
    pub selection_action: Option<SelectionAction>,
}

impl TriggerView {
    /// The handling of the selection: `Remove` where none is configured.
    pub open spec fn selection_policy(self) -> SelectionAction {
        match self.selection_action {
            Some(action) => action,
            None => SelectionAction::Remove,
        }
    }

    /// Whether one of the steps types the text while it arrives.
    pub open spec fn streams_live(self) -> bool {
        self.next_steps.contains(StepView::StreamTextToScreen)
    }
}

impl View for Trigger {
    type V = TriggerView;

    open spec fn view(&self) -> TriggerView {
        TriggerView {
            trigger_with_shortcut: match self.trigger_with_shortcut {
                Some(keys) => Some(keys@),
                None => None,
            },
            process: self.process as nat,
            prompt: self.prompt as nat,
            next_steps: self.next_steps.deep_view(),
            selection_action: self.selection_action,
        }
    }
}

impl DeepView for Trigger {
    type V = TriggerView;

    open spec fn deep_view(&self) -> TriggerView {
        self.view()
    }
}

/// Copy of a list of steps.
pub fn clone_steps(steps: &Vec<Step>) -> (copy: Vec<Step>)
    ensures
        copy.deep_view() == steps.deep_view(),
{
    let mut copy: Vec<Step> = Vec::new();
    let n = steps.len();
    let mut i: usize = 0;
    while i < n
        invariant
            n == steps.len(),
            i <= n,
            copy.deep_view() == steps.deep_view().take(i as int),
        decreases n - i,
    {
        let ghost before = copy.deep_view();
        copy.push(steps[i].clone());
        assert(copy.deep_view() =~= before.push(steps[i as int]@));
        assert(steps.deep_view().take(i + 1) =~= steps.deep_view().take(i as int).push(
            steps[i as int]@,
        ));
        i += 1;
    }
    assert(steps.deep_view().take(n as int) =~= steps.deep_view());
    copy
}

impl Trigger {
    /// The handling of the selection: `Remove` where none is configured.
    pub fn selection_policy(&self) -> (policy: SelectionAction)
        ensures
            policy == self@.selection_policy(),
    {
        match self.selection_action {
            Some(action) => action,
            None => SelectionAction::Remove,
        }
    }

    /// Whether one of the steps types the text while it arrives.
    pub fn streams_live(&self) -> (live: bool)
        ensures
            live == self@.streams_live(),
    {
        let n = self.next_steps.len();
        let mut i: usize = 0;
        while i < n
            invariant
                n == self.next_steps.len(),
                i <= n,
                forall|j: int|
                    0 <= j < i ==> (#[trigger] self.next_steps.deep_view()[j])
                        != StepView::StreamTextToScreen,
            decreases n - i,
        {
            if let Step::StreamTextToScreen = self.next_steps[i] {
                assert(self.next_steps.deep_view()[i as int] == StepView::StreamTextToScreen);
                return true;
            }
            i += 1;
        }
        false
    }
}

impl Default for Trigger {
    fn default() -> (trigger: Trigger)
        ensures
            trigger@ == (TriggerView {
                trigger_with_shortcut: None,
                process: 0,
                prompt: 0,
                next_steps: seq![StepView::StreamTextToScreen],
                selection_action: None,
            }),
    {
        let mut next_steps: Vec<Step> = Vec::new();
        next_steps.push(Step::StreamTextToScreen);
        let trigger = Trigger {
            trigger_with_shortcut: None,
            process: 0,
            prompt: 0,
            next_steps,
            selection_action: None,
        };
        assert(trigger@.next_steps =~= seq![StepView::StreamTextToScreen]);
        trigger
    }
}

impl Clone for Trigger {
    fn clone(&self) -> (copy: Trigger)
        ensures
            copy@ == self@,
    {
        Trigger {
            trigger_with_shortcut: match &self.trigger_with_shortcut {
                Some(keys) => Some(keys.clone()),
                None => None,
            },
            process: self.process,
            prompt: self.prompt,
            next_steps: clone_steps(&self.next_steps),
            selection_action: self.selection_action,
        }
    }
}

/// Why a configuration cannot be used. Each names the first trigger at
/// fault, by its index.
#[derive(Clone, Copy, Debug, PartialEq, Eq, Structural)]
pub enum ConfigurationError {
    /// The trigger's process index names no process.
    ProcessOutOfRange { trigger: usize, process: usize },
    /// The trigger's prompt index names no prompt.
    PromptOutOfRange { trigger: usize, prompt: usize },
    /// The step of that position goes on to a trigger that does not exist.
    TriggerOutOfRange { trigger: usize, step: usize, target: usize },
}

/// The whole configuration.
#[derive(Debug)]
pub struct Settings {
    pub environment: Environment,
    pub processes: Vec<ProcessType>,
    pub prompts: Vec<CustomPrompt>,
    pub triggers: Vec<Trigger>,
}

/// Model of [`Settings`].
pub struct SettingsView {
    pub environment: Map<Seq<char>, Seq<char>>,
    pub processes: Seq<ProcessView>,
    pub prompts: Seq<PromptView>,
    pub triggers: Seq<TriggerView>,
}

impl StepView {
    /// Whether the step, if it goes on to a trigger, names one of `triggers`
    /// many.
    pub open spec fn sound(self, triggers: nat) -> bool {
        match self {
            StepView::Trigger(target) => target < triggers,
            _ => true,
        }
    }
}

impl SettingsView {
    /// Whether the trigger of index `t` refers to a process, to a prompt and,
    /// in its steps, to triggers that exist.
    pub open spec fn sound_trigger(self, t: int) -> bool {
        &&& self.triggers[t].process < self.processes.len()
        &&& self.triggers[t].prompt < self.prompts.len()
        &&& forall|s: int|
            0 <= s < self.triggers[t].next_steps.len() ==> (
            #[trigger] self.triggers[t].next_steps[s]).sound(self.triggers.len())
    }

    /// Whether every index in the configuration refers to something.
    pub open spec fn valid(self) -> bool {
        forall|t: int| 0 <= t < self.triggers.len() ==> #[trigger] self.sound_trigger(t)
    }

    /// Whether `fault` describes the first thing wrong with the
    /// configuration: triggers are read in order, and of each its process,
    /// its prompt, then its steps in order.
    pub open spec fn first_fault(self, fault: ConfigurationError) -> bool {
        match fault {
            ConfigurationError::ProcessOutOfRange { trigger, process } => {
                &&& trigger < self.triggers.len()
                &&& forall|t: int| 0 <= t < trigger ==> #[trigger] self.sound_trigger(t)
                &&& self.triggers[trigger as int].process == process
                &&& process >= self.processes.len()
            },
            ConfigurationError::PromptOutOfRange { trigger, prompt } => {
                &&& trigger < self.triggers.len()
                &&& forall|t: int| 0 <= t < trigger ==> #[trigger] self.sound_trigger(t)
                &&& self.triggers[trigger as int].process < self.processes.len()
                &&& self.triggers[trigger as int].prompt == prompt
                &&& prompt >= self.prompts.len()
            },
            ConfigurationError::TriggerOutOfRange { trigger, step, target } => {
                &&& trigger < self.triggers.len()
                &&& forall|t: int| 0 <= t < trigger ==> #[trigger] self.sound_trigger(t)
                &&& self.triggers[trigger as int].process < self.processes.len()
                &&& self.triggers[trigger as int].prompt < self.prompts.len()
                &&& step < self.triggers[trigger as int].next_steps.len()
                &&& forall|s: int|
                    0 <= s < step ==> (
                    #[trigger] self.triggers[trigger as int].next_steps[s]).sound(
                        self.triggers.len(),
                    )
                &&& self.triggers[trigger as int].next_steps[step as int] == StepView::Trigger(
                    target as nat,
                )
                &&& target >= self.triggers.len()
            },
        }
    }
}

impl View for Settings {
    type V = SettingsView;

    open spec fn view(&self) -> SettingsView {
        SettingsView {
            environment: self.environment@,
            processes: self.processes.deep_view(),
            prompts: self.prompts.deep_view(),
            triggers: self.triggers.deep_view(),
        }
    }
}

/// The binding of the first default trigger.
pub open spec fn default_basic_binding(platform: Platform) -> Seq<char> {
    if platform == Platform::MacOs {
        "Command+Shift+."@
    } else {
        "Ctrl+Shift+."@
    }
}

/// The binding of the second default trigger.
pub open spec fn default_context_binding(platform: Platform) -> Seq<char> {
    if platform == Platform::MacOs {
        "Command+Shift+/"@
    } else {
        "Ctrl+Shift+/"@
    }
}

/// The prompt that hands the selection on as it is.
pub open spec fn basic_prompt() -> Seq<char> {
    "$SELECTION"@
}

/// The prompt that gives the clipboard as context for the selection.
pub open spec fn context_prompt() -> Seq<char> {
    "I will ask you to do something. Below is some extra context to help do what I ask. --------- $CLIPBOARD --------- Given the above context, please, $SELECTION. DO NOT OUTPUT ANYTHING ELSE."@
}

/// The configuration that is used where none has been saved.
pub open spec fn default_settings(platform: Platform) -> SettingsView {
    SettingsView {
        environment: Map::<Seq<char>, Seq<char>>::empty().insert(model_key(), default_model()),
        processes: seq![
            ProcessView::Ollama,
            ProcessView::Command(seq!["bash"@, "/path/to/gpt.sh"@]),
        ],
        prompts: seq![
            PromptView { name: "default basic"@, prompt: basic_prompt() },
            PromptView { name: "default with context"@, prompt: context_prompt() },
        ],
        triggers: seq![
            TriggerView {
                trigger_with_shortcut: Some(default_basic_binding(platform)),
                process: 0,
                prompt: 0,
                next_steps: seq![StepView::StreamTextToScreen],
                selection_action: None,
            },
            TriggerView {
                trigger_with_shortcut: Some(default_context_binding(platform)),
                process: 0,
                prompt: 1,
                next_steps: seq![StepView::StreamTextToScreen],
                selection_action: None,
            },
        ],
    }
}

impl ConfigurationError {
    /// Index of the trigger at fault.
    pub open spec fn at(self) -> usize {
        match self {
            ConfigurationError::ProcessOutOfRange { trigger, process } => trigger,
            ConfigurationError::PromptOutOfRange { trigger, prompt } => trigger,
            ConfigurationError::TriggerOutOfRange { trigger, step, target } => trigger,
        }
    }
}

/// A configuration has a first fault exactly if it is not valid, and then
/// one only.
pub proof fn lemma_first_fault(
    settings: SettingsView,
    fault: ConfigurationError,
    other: ConfigurationError,
)
    requires
        settings.first_fault(fault),
    ensures
        !settings.valid(),
        !settings.sound_trigger(fault.at() as int),
        settings.first_fault(other) ==> other == fault,
{
    let t = fault.at() as int;
    match fault {
        ConfigurationError::TriggerOutOfRange { trigger, step, target } => {
            assert(!settings.triggers[t].next_steps[step as int].sound(settings.triggers.len()));
        },
        _ => {},
    }
    assert(!settings.sound_trigger(t));
    if settings.first_fault(other) {
        let u = other.at() as int;
        match other {
            ConfigurationError::TriggerOutOfRange { trigger, step, target } => {
                assert(!settings.triggers[u].next_steps[step as int].sound(
                    settings.triggers.len(),
                ));
            },
            _ => {},
        }
        assert(!settings.sound_trigger(u));
        assert(t == u) by {
            if t < u {
                assert(settings.sound_trigger(t));
            }
            if u < t {
                assert(settings.sound_trigger(u));
            }
        }
        match (fault, other) {
            (
                ConfigurationError::TriggerOutOfRange { trigger, step, target },
                ConfigurationError::TriggerOutOfRange {
                    trigger: trigger2,
                    step: step2,
                    target: target2,
                },
            ) => {
                let steps = settings.triggers[t].next_steps;
                assert(!steps[step as int].sound(settings.triggers.len()));
                assert(!steps[step2 as int].sound(settings.triggers.len()));
                assert(step == step2);
                assert(target as nat == target2 as nat);
            },
            _ => {},
        }
    }
}

/// Validity does not depend on the environment.
pub proof fn lemma_valid_whatever_environment(
    settings: SettingsView,
    environment: Map<Seq<char>, Seq<char>>,
)
    requires
        settings.valid(),
    ensures
        (SettingsView { environment, ..settings }).valid(),
{
    let changed = SettingsView { environment, ..settings };
    assert forall|t: int| 0 <= t < changed.triggers.len() implies #[trigger] changed.sound_trigger(
        t,
    ) by {
        assert(settings.sound_trigger(t));
    }
}

/// The default configuration refers only to what it holds.
pub proof fn lemma_default_settings_valid(platform: Platform)
    ensures
        default_settings(platform).valid(),
{
    let cfg = default_settings(platform);
    assert forall|t: int| 0 <= t < cfg.triggers.len() implies #[trigger] cfg.sound_trigger(t) by {
        assert(cfg.triggers[t].next_steps =~= seq![StepView::StreamTextToScreen]);
    }
}

impl Settings {
    /// The configuration that is used on `platform` where none has been
    /// saved.
    pub fn for_platform(platform: Platform) -> (settings: Settings)
        ensures
            settings@ == default_settings(platform),
    {
        let mut environment = Environment::new();
        environment.insert("OLLAMA_MODEL".to_owned(), "openhermes2.5-mistral".to_owned());
        let mut words: Vec<String> = Vec::new();
        words.push("bash".to_owned());
        words.push("/path/to/gpt.sh".to_owned());
        assert(words.deep_view() =~= seq!["bash"@, "/path/to/gpt.sh"@]);
        let mut processes: Vec<ProcessType> = Vec::new();
        processes.push(ProcessType::Ollama);
        processes.push(ProcessType::Command(words));
        let mut prompts: Vec<CustomPrompt> = Vec::new();
        prompts.push(
            CustomPrompt { name: "default basic".to_owned(), prompt: "$SELECTION".to_owned() },
        );
        prompts.push(
            CustomPrompt {
                name: "default with context".to_owned(),
                prompt: "I will ask you to do something. Below is some extra context to help do what I ask. --------- $CLIPBOARD --------- Given the above context, please, $SELECTION. DO NOT OUTPUT ANYTHING ELSE.".to_owned(),
            },
        );
        let on_mac = platform == Platform::MacOs;
        let mut basic = Trigger::default();
        basic.trigger_with_shortcut =
        Some(if on_mac {
            "Command+Shift+.".to_owned()
        } else {
            "Ctrl+Shift+.".to_owned()
        });
        let mut context = Trigger::default();
        context.trigger_with_shortcut =
        Some(if on_mac {
            "Command+Shift+/".to_owned()
        } else {
            "Ctrl+Shift+/".to_owned()
        });
        context.prompt = 1;
        let mut triggers: Vec<Trigger> = Vec::new();
        triggers.push(basic);
        triggers.push(context);
        let settings = Settings { environment, processes, prompts, triggers };
        proof {
            let want = default_settings(platform);
            assert(settings@.processes =~= want.processes);
            assert(settings@.prompts =~= want.prompts);
            assert(settings@.triggers =~= want.triggers);
        }
        settings
    }

    /// Gives `key` the value `value` in the environment.
    pub fn add_env_var(&mut self, key: String, value: String)
        ensures
            final(self)@ == (SettingsView {
                environment: old(self)@.environment.insert(key@, value@),
                ..old(self)@
            }),
    {
        self.environment.insert(key, value);
    }

    /// Checks that every index in the configuration refers to something,
    /// and names the first that does not.
    pub fn validate(&self) -> (checked: Result<(), ConfigurationError>)
        ensures
            checked is Ok <==> self@.valid(),
            match checked {
                Ok(_) => true,
                Err(fault) => self@.first_fault(fault),
            },
    {
        let count = self.triggers.len();
        let mut t: usize = 0;
        while t < count
            invariant
                count == self.triggers.len(),
                t <= count,
                forall|k: int| 0 <= k < t ==> #[trigger] self@.sound_trigger(k),
            decreases count - t,
        {
            let trigger = &self.triggers[t];
            assert(self@.triggers[t as int] == trigger@);
            if trigger.process >= self.processes.len() {
                assert(!self@.sound_trigger(t as int));
                return Err(
                    ConfigurationError::ProcessOutOfRange { trigger: t, process: trigger.process },
                );
            }
            if trigger.prompt >= self.prompts.len() {
                assert(!self@.sound_trigger(t as int));
                return Err(
                    ConfigurationError::PromptOutOfRange { trigger: t, prompt: trigger.prompt },
                );
            }
            let steps = trigger.next_steps.len();
            let mut s: usize = 0;
            while s < steps
                invariant
                    count == self.triggers.len(),
                    t < count,
                    self@.triggers[t as int] == trigger@,
                    steps == trigger.next_steps.len(),
                    s <= steps,
                    trigger.process < self.processes.len(),
                    trigger.prompt < self.prompts.len(),
                    forall|k: int| 0 <= k < t ==> #[trigger] self@.sound_trigger(k),
                    forall|k: int|
                        0 <= k < s ==> (#[trigger] trigger@.next_steps[k]).sound(count as nat),
                decreases steps - s,
            {
                assert(trigger@.next_steps[s as int] == trigger.next_steps[s as int]@);
                if let Step::Trigger(target) = &trigger.next_steps[s] {
                    if *target >= count {
                        assert(!trigger@.next_steps[s as int].sound(count as nat));
                        assert(!self@.sound_trigger(t as int));
                        return Err(
                            ConfigurationError::TriggerOutOfRange {
                                trigger: t,
                                step: s,
                                target: *target,
                            },
                        );
                    }
                }
                s += 1;
            }
            assert(self@.sound_trigger(t as int));
            t += 1;
        }
        Ok(())
    }
}

impl Default for Settings {
    /// The configuration that is used where none has been saved, with the
    /// bindings of a platform other than macOS.
    fn default() -> (settings: Settings)
        ensures
            settings@ == default_settings(Platform::Other),
    {
        Settings::for_platform(Platform::Other)
    }
}

impl Clone for Settings {
    fn clone(&self) -> (copy: Settings)
        ensures
            copy@ == self@,
    {
        let processes = self.processes.clone();
        let prompts = self.prompts.clone();
        let triggers = self.triggers.clone();
        assert(processes.deep_view() =~= self.processes.deep_view());
        assert(prompts.deep_view() =~= self.prompts.deep_view());
        assert(triggers.deep_view() =~= self.triggers.deep_view());
        Settings { environment: self.environment.clone(), processes, prompts, triggers }
    }
}

} // verus!
