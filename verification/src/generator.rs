//! The text generator: what is started for a process and a prompt, and how
//! the answers of a started generator become fragments of text.
//!
//! Starting a command, reading its pipes and talking to the generation
//! service are the application's work. It reports each outcome as a
//! [`GeneratorEvent`]; [`Generator::step`] answers with the fragments to
//! hand on and with what to do next.
//!
//! A command is read in turns, a chunk of standard output, then a chunk of
//! standard error. Each chunk is decoded by itself, with bytes that are no
//! UTF-8 replaced, and is one fragment. A start that fails gives its
//! reason as the only fragment; a read that fails ends the sequence.

use vstd::prelude::*;
use vstd::utf8::{decode_utf8, valid_utf8};
use crate::environment::{entries_map, Environment};
use crate::settings::{default_model, model_key, Platform, ProcessType, ProcessView};

verus! {

/// The shell that runs a prompt as a script.
pub open spec fn shell(platform: Platform) -> Seq<char> {
    if platform == Platform::Windows {
        "cmd"@
    } else {
        "sh"@
    }
}

/// The option after which the shell takes its script.
pub open spec fn shell_flag(platform: Platform) -> Seq<char> {
    if platform == Platform::Windows {
        "/C"@
    } else {
        "-c"@
    }
}

/// The model that the generation service is asked for: the one that the
/// environment names, else the default.
pub open spec fn model_for(env: Map<Seq<char>, Seq<char>>) -> Seq<char> {
    if env.contains_key(model_key()) {
        env[model_key()]
    } else {
        default_model()
    }
}

/// What has to be started to generate text.
#[derive(Debug, PartialEq, Eq)]
pub enum GenerationPlan {
    /// A streaming session with the generation service.
    Service { model: String, prompt: String },
    /// A command with its arguments, the prompt last, and the variables
    /// that it is started with, each key once.
    Command { program: String, arguments: Vec<String>, environment: Vec<(String, String)> },
}

/// Model of a [`GenerationPlan`].
pub enum PlanView {
    Service { model: Seq<char>, prompt: Seq<char> },
    Command {
        program: Seq<char>,
        arguments: Seq<Seq<char>>,
        environment: Map<Seq<char>, Seq<char>>,
    },
}

impl View for GenerationPlan {
    type V = PlanView;

    open spec fn view(&self) -> PlanView {
        match self {
            GenerationPlan::Service { model, prompt } => PlanView::Service {
                model: model@,
                prompt: prompt@,
            },
            GenerationPlan::Command { program, arguments, environment } => PlanView::Command {
                program: program@,
                arguments: arguments.deep_view(),
                environment: entries_map(environment@),
            },
        }
    }
}

/// What is started for `process` and the final prompt `prompt`. A command
/// gets the prompt as its last argument and the environment as its
/// variables; a command of no words is the platform's shell with the prompt
/// as its script.
pub open spec fn planned(
    process: ProcessView,
    prompt: Seq<char>,
    env: Map<Seq<char>, Seq<char>>,
    platform: Platform,
) -> PlanView {
    match process {
        ProcessView::Ollama => PlanView::Service { model: model_for(env), prompt },
        ProcessView::Command(words) => if words.len() == 0 {
            PlanView::Command {
                program: shell(platform),
                arguments: seq![shell_flag(platform), prompt],
                environment: env,
            }
        } else {
            PlanView::Command {
                program: words[0],
                arguments: words.skip(1).push(prompt),
                environment: env,
            }
        },
    }
}

/// The model that the generation service is asked for.
pub fn model_name(env: &Environment) -> (model: String)
    ensures
        model@ == model_for(env@),
{
    match env.get("OLLAMA_MODEL") {
        Some(model) => model.clone(),
        None => "openhermes2.5-mistral".to_owned(),
    }
}

/// What has to be started for `process` and the final prompt `prompt`.
pub fn plan(process: &ProcessType, prompt: String, env: &Environment, platform: Platform) -> (made:
    GenerationPlan)
    ensures
        made@ == planned(process@, prompt@, env@, platform),
{
    match process {
        ProcessType::Ollama => GenerationPlan::Service { model: model_name(env), prompt },
        ProcessType::Command(words) => {
            let mut arguments: Vec<String> = Vec::new();
            if words.len() == 0 {
                let on_windows = platform == Platform::Windows;
                let program = if on_windows {
                    "cmd".to_owned()
                } else {
                    "sh".to_owned()
                };
                arguments.push(
                    if on_windows {
                        "/C".to_owned()
                    } else {
                        "-c".to_owned()
                    },
                );
                arguments.push(prompt);
                assert(arguments.deep_view() =~= seq![shell_flag(platform), prompt@]);
                GenerationPlan::Command { program, arguments, environment: env.entries() }
            } else {
                let n = words.len();
                let mut i: usize = 1;
                while i < n
                    invariant
                        n == words.len(),
                        1 <= i <= n,
                        arguments.deep_view() == words.deep_view().subrange(1, i as int),
                    decreases n - i,
                {
                    let ghost before = arguments.deep_view();
                    arguments.push(words[i].clone());
                    assert(arguments.deep_view() =~= before.push(words[i as int]@));
                    assert(words.deep_view().subrange(1, i + 1) =~= words.deep_view().subrange(
                        1,
                        i as int,
                    ).push(words[i as int]@));
                    i += 1;
                }
                let ghost before = arguments.deep_view();
                arguments.push(prompt);
                assert(arguments.deep_view() =~= before.push(prompt@));
                assert(words.deep_view().subrange(1, n as int) =~= words.deep_view().skip(1));
                GenerationPlan::Command {
                    program: words[0].clone(),
                    arguments,
                    environment: env.entries(),
                }
            }
        },
    }
}

/// The text that `String::from_utf8_lossy` makes of `bytes`: each run of
/// bytes that is no UTF-8 becomes the replacement character.
pub uninterp spec fn utf8_lossy(bytes: Seq<u8>) -> Seq<char>;

/// Trusted: calls `String::from_utf8_lossy` of std. The contract gives the
/// text its name, [`utf8_lossy`], and states what std documents of valid
/// UTF-8: it is decoded as it stands.
#[verifier::external_body]
fn decode_lossy(bytes: &[u8]) -> (text: String)
    ensures
        text@ == utf8_lossy(bytes@),
        valid_utf8(bytes@) ==> text@ == decode_utf8(bytes@),
{
    String::from_utf8_lossy(bytes).into_owned()
}

/// Where a started generator stands.
#[derive(Clone, Copy, Debug, PartialEq, Eq, Structural)]
pub enum GeneratorState {
    /// The command is being started.
    Spawning,
    /// Standard output is being read.
    ReadingOutput,
    /// Standard error is being read; `last` says that standard output has
    /// ended.
    ReadingErrors { last: bool },
    /// The session with the service is being opened.
    Opening,
    /// The next answer of the service is awaited.
    Streaming,
    /// The sequence of fragments has ended.
    Finished,
}

/// What the application reports of its work for the generator.
#[derive(Debug, PartialEq, Eq)]
pub enum GeneratorEvent {
    /// The command or the session was started.
    Started,
    /// It could not be started; the text says why.
    StartFailed(String),
    /// A read from a pipe returned these bytes; none at its end.
    Read(Vec<u8>),
    /// A read from a pipe failed.
    ReadFailed,
    /// The service sent these responses.
    Responses(Vec<String>),
    /// The service sent an error, or its stream ended.
    Closed,
}

/// Model of a [`GeneratorEvent`].
pub enum GeneratorEventView {
    Started,
    StartFailed(Seq<char>),
    Read(Seq<u8>),
    ReadFailed,
    Responses(Seq<Seq<char>>),
    Closed,
}

impl View for GeneratorEvent {
    type V = GeneratorEventView;

    open spec fn view(&self) -> GeneratorEventView {
        match self {
            GeneratorEvent::Started => GeneratorEventView::Started,
            GeneratorEvent::StartFailed(why) => GeneratorEventView::StartFailed(why@),
            GeneratorEvent::Read(bytes) => GeneratorEventView::Read(bytes@),
            GeneratorEvent::ReadFailed => GeneratorEventView::ReadFailed,
            GeneratorEvent::Responses(texts) => GeneratorEventView::Responses(texts.deep_view()),
            GeneratorEvent::Closed => GeneratorEventView::Closed,
        }
    }
}

/// What the application does next for the generator.
#[derive(Clone, Copy, Debug, PartialEq, Eq, Structural)]
pub enum GeneratorRequest {
    /// Start the command, or open the session with the service.
    Start,
    /// Read a chunk of standard output.
    ReadOutput,
    /// Read a chunk of standard error.
    ReadErrors,
    /// Await the next answer of the service.
    AwaitResponses,
    /// Nothing: the sequence has ended.
    Stop,
}

/// The request with which a generator in `state` waits.
pub open spec fn request_in(state: GeneratorState) -> GeneratorRequest {
    match state {
        GeneratorState::ReadingOutput => GeneratorRequest::ReadOutput,
        GeneratorState::ReadingErrors { last } => GeneratorRequest::ReadErrors,
        GeneratorState::Streaming => GeneratorRequest::AwaitResponses,
        GeneratorState::Spawning => GeneratorRequest::Start,
        GeneratorState::Opening => GeneratorRequest::Start,
        GeneratorState::Finished => GeneratorRequest::Stop,
    }
}

/// The state in which a generator for `plan` begins.
pub open spec fn initial_state(plan: PlanView) -> GeneratorState {
    match plan {
        PlanView::Service { .. } => GeneratorState::Opening,
        PlanView::Command { .. } => GeneratorState::Spawning,
    }
}

/// The state after `event` has been reported in `state`. An event that the
/// state does not wait for ends the sequence.
pub open spec fn next_state(state: GeneratorState, event: GeneratorEventView) -> GeneratorState {
    match (state, event) {
        (GeneratorState::Spawning, GeneratorEventView::Started) => GeneratorState::ReadingOutput,
        (GeneratorState::Opening, GeneratorEventView::Started) => GeneratorState::Streaming,
        (GeneratorState::ReadingOutput, GeneratorEventView::Read(bytes)) => {
            GeneratorState::ReadingErrors { last: bytes.len() == 0 }
        },
        (GeneratorState::ReadingErrors { last }, GeneratorEventView::Read(bytes)) => if last {
            GeneratorState::Finished
        } else {
            GeneratorState::ReadingOutput
        },
        (GeneratorState::Streaming, GeneratorEventView::Responses(texts)) => {
            GeneratorState::Streaming
        },
        _ => GeneratorState::Finished,
    }
}

/// The fragments that `event` brings in `state`: the reason of a failed
/// start, the text of a chunk that was read, the responses of the service.
/// The end of standard output brings none.
pub open spec fn fragments_of(state: GeneratorState, event: GeneratorEventView) -> Seq<Seq<char>> {
    match (state, event) {
        (GeneratorState::Spawning, GeneratorEventView::StartFailed(why)) => seq![why],
        (GeneratorState::Opening, GeneratorEventView::StartFailed(why)) => seq![why],
        (GeneratorState::ReadingOutput, GeneratorEventView::Read(bytes)) => if bytes.len() == 0 {
            Seq::empty()
        } else {
            seq![utf8_lossy(bytes)]
        },
        (GeneratorState::ReadingErrors { last }, GeneratorEventView::Read(bytes)) => seq![
            utf8_lossy(bytes),
        ],
        (GeneratorState::Streaming, GeneratorEventView::Responses(texts)) => texts,
        _ => Seq::empty(),
    }
}

/// The sequence cannot be started again: once it has ended, whatever is
/// reported brings no fragment and leaves it ended.
pub proof fn lemma_finished_stays_finished(event: GeneratorEventView)
    ensures
        next_state(GeneratorState::Finished, event) == GeneratorState::Finished,
        fragments_of(GeneratorState::Finished, event) == Seq::<Seq<char>>::empty(),
        request_in(GeneratorState::Finished) == GeneratorRequest::Stop,
{
}

/// A start that fails gives its reason as the only fragment and ends the
/// sequence; a read that fails ends it with no fragment.
pub proof fn lemma_failures_end_the_sequence(plan: PlanView, state: GeneratorState, why: Seq<char>)
    ensures
        fragments_of(initial_state(plan), GeneratorEventView::StartFailed(why)) == seq![why],
        next_state(initial_state(plan), GeneratorEventView::StartFailed(why))
            == GeneratorState::Finished,
        fragments_of(state, GeneratorEventView::ReadFailed) == Seq::<Seq<char>>::empty(),
        next_state(state, GeneratorEventView::ReadFailed) == GeneratorState::Finished,
{
}

/// What a step of the generator gives.
#[derive(Debug, PartialEq, Eq)]
pub struct GeneratorOutput {
    /// The fragments to hand on, in order.
    pub fragments: Vec<String>,
    /// What to do next.
    pub request: GeneratorRequest,
}

/// A started generator.
#[derive(Debug)]
pub struct Generator {
    state: GeneratorState,
}

impl View for Generator {
    type V = GeneratorState;

    closed spec fn view(&self) -> GeneratorState {
        self.state
    }
}

impl Generator {
    /// The generator for `plan`, before the application has started
    /// anything.
    pub fn new(plan: &GenerationPlan) -> (generator: Generator)
        ensures
            generator@ == initial_state(plan@),
    {
        match plan {
            GenerationPlan::Service { .. } => Generator { state: GeneratorState::Opening },
            GenerationPlan::Command { .. } => Generator { state: GeneratorState::Spawning },
        }
    }

    /// Where the generator stands.
    pub fn state(&self) -> (state: GeneratorState)
        ensures
            state == self@,
    {
        self.state
    }

    /// Whether the sequence of fragments has ended.
    pub fn is_finished(&self) -> (finished: bool)
        ensures
            finished == (self@ == GeneratorState::Finished),
    {
        self.state == GeneratorState::Finished
    }

    /// What the application does next.
    pub fn request(&self) -> (request: GeneratorRequest)
        ensures
            request == request_in(self@),
    {
        match self.state {
            GeneratorState::ReadingOutput => GeneratorRequest::ReadOutput,
            GeneratorState::ReadingErrors { .. } => GeneratorRequest::ReadErrors,
            GeneratorState::Streaming => GeneratorRequest::AwaitResponses,
            GeneratorState::Spawning => GeneratorRequest::Start,
            GeneratorState::Opening => GeneratorRequest::Start,
            GeneratorState::Finished => GeneratorRequest::Stop,
        }
    }

    /// Takes in what the application reports, and returns the fragments
    /// that this brings and the next thing to do.
    pub fn step(&mut self, event: GeneratorEvent) -> (output: GeneratorOutput)
        ensures
            final(self)@ == next_state(old(self)@, event@),
            output.fragments.deep_view() == fragments_of(old(self)@, event@),
            output.request == request_in(final(self)@),
            match event@ {
                GeneratorEventView::Read(bytes) => valid_utf8(bytes) ==> forall|i: int|
                    0 <= i < output.fragments.len() ==> (#[trigger] output.fragments[i])@
                        == decode_utf8(bytes),
                _ => true,
            },
    {
        let mut fragments: Vec<String> = Vec::new();
        assert(fragments.deep_view() =~= Seq::<Seq<char>>::empty());
        let state = self.state;
        let next = match (state, event) {
            (GeneratorState::Spawning, GeneratorEvent::Started) => GeneratorState::ReadingOutput,
            (GeneratorState::Opening, GeneratorEvent::Started) => GeneratorState::Streaming,
            (GeneratorState::Spawning, GeneratorEvent::StartFailed(why)) => {
                fragments.push(why);
                assert(fragments.deep_view() =~= seq![why@]);
                GeneratorState::Finished
            },
            (GeneratorState::Opening, GeneratorEvent::StartFailed(why)) => {
                fragments.push(why);
                assert(fragments.deep_view() =~= seq![why@]);
                GeneratorState::Finished
            },
            (GeneratorState::ReadingOutput, GeneratorEvent::Read(bytes)) => {
                let ended = bytes.len() == 0;
                if !ended {
                    fragments.push(decode_lossy(bytes.as_slice()));
                    assert(fragments.deep_view() =~= seq![utf8_lossy(bytes@)]);
                }
                GeneratorState::ReadingErrors { last: ended }
            },
            (GeneratorState::ReadingErrors { last }, GeneratorEvent::Read(bytes)) => {
                fragments.push(decode_lossy(bytes.as_slice()));
                assert(fragments.deep_view() =~= seq![utf8_lossy(bytes@)]);
                if last {
                    GeneratorState::Finished
                } else {
                    GeneratorState::ReadingOutput
                }
            },
            (GeneratorState::Streaming, GeneratorEvent::Responses(texts)) => {
                fragments = texts;
                GeneratorState::Streaming
            },
            _ => GeneratorState::Finished,
        };
        self.state = next;
        GeneratorOutput { fragments, request: self.request() }
    }
}

} // verus!
