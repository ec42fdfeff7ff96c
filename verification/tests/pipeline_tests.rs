use trigger_pipeline::cancel::{CancellationController, KeyEvent};
use trigger_pipeline::environment::Environment;
use trigger_pipeline::generator::{GenerationPlan, Generator, GeneratorEvent, GeneratorRequest};
use trigger_pipeline::picture::OutputError;
use trigger_pipeline::pipeline::{Action, Event, Pipeline, RunError, RunState};
use trigger_pipeline::settings::{
    ConfigurationError, CustomPrompt, Platform, ProcessType, SelectionAction, Settings, Step,
    Trigger,
};
use trigger_pipeline::template::VariableResolutionError;

const RED_PIXEL: &str =
    "iVBORw0KGgoAAAANSUhEUgAAAAEAAAABCAYAAAAfFcSJAAAADUlEQVR4nGP4z8DQAAAEgQGALFXOsAAAAABJRU5ErkJggg==";

fn prompt(text: &str) -> CustomPrompt {
    CustomPrompt { name: "test".to_string(), prompt: text.to_string() }
}

fn trigger(process: usize, prompt: usize, steps: Vec<Step>) -> Trigger {
    Trigger {
        trigger_with_shortcut: None,
        process,
        prompt,
        next_steps: steps,
        selection_action: None,
    }
}

fn echo_settings(steps: Vec<Step>) -> Settings {
    Settings {
        environment: Environment::new(),
        processes: vec![ProcessType::Command(vec!["echo".to_string()])],
        prompts: vec![prompt("$SELECTION")],
        triggers: vec![trigger(0, 0, steps)],
    }
}

fn echo_plan(text: &str, variables: &[(&str, &str)]) -> Action {
    Action::Generate(GenerationPlan::Command {
        program: "echo".to_string(),
        arguments: vec![text.to_string()],
        environment: variables.iter().map(|(k, v)| (k.to_string(), v.to_string())).collect(),
    })
}

fn activated(trigger: usize, clipboard: &str) -> Event {
    Event::Activated { trigger, clipboard: clipboard.to_string() }
}

fn captured(selection: &str) -> Event {
    Event::ContextCaptured { selection: selection.to_string(), screen_text: None }
}

fn fragment(text: &str) -> Event {
    Event::Fragment(text.to_string())
}

fn started(settings: Settings, clipboard: &str, selection: &str) -> Pipeline {
    let mut pipeline = Pipeline::new(settings, Platform::Other).expect("valid settings");
    pipeline.handle(activated(0, clipboard), false);
    pipeline.handle(captured(selection), false);
    assert_eq!(pipeline.state(), RunState::Generating);
    pipeline
}

fn env_value<'a>(pipeline: &'a Pipeline, key: &str) -> Option<&'a str> {
    pipeline.settings().environment.get(key).map(|s| s.as_str())
}

#[test]
fn new_pipeline_is_idle() {
    let pipeline = Pipeline::new(Settings::default(), Platform::Other).expect("valid settings");
    assert_eq!(pipeline.state(), RunState::Idle);
    assert!(pipeline.is_idle());
    assert_eq!(pipeline.failure(), &None);
    assert_eq!(pipeline.whole_output(), "");
}

#[test]
fn new_pipeline_refuses_invalid_settings() {
    let mut settings = echo_settings(vec![Step::Trigger(1)]);
    assert_eq!(
        Pipeline::new(settings.clone(), Platform::Other).err(),
        Some(ConfigurationError::TriggerOutOfRange { trigger: 0, step: 0, target: 1 })
    );
    settings.triggers[0].process = 2;
    assert_eq!(
        Pipeline::with_threshold(settings, Platform::Other, 1).err(),
        Some(ConfigurationError::ProcessOutOfRange { trigger: 0, process: 2 })
    );
}

#[test]
fn activation_asks_for_the_context() {
    let mut settings = echo_settings(vec![Step::StreamTextToScreen]);
    settings.triggers[0].selection_action = Some(SelectionAction::Nothing);
    let mut pipeline = Pipeline::new(settings, Platform::Other).expect("valid settings");
    assert_eq!(
        pipeline.handle(activated(0, "old clip"), false),
        Action::CaptureContext(SelectionAction::Nothing)
    );
    assert_eq!(pipeline.state(), RunState::CapturingContext);
    assert_eq!(pipeline.active_trigger(), 0);
    assert_eq!(env_value(&pipeline, "CLIPBOARD"), Some("old clip"));
}

#[test]
fn activation_of_a_trigger_that_does_not_exist_is_ignored() {
    let mut pipeline =
        Pipeline::new(echo_settings(Vec::new()), Platform::Other).expect("valid settings");
    assert_eq!(pipeline.handle(activated(1, "clip"), false), Action::Idle);
    assert_eq!(pipeline.state(), RunState::Idle);
    assert_eq!(env_value(&pipeline, "CLIPBOARD"), None);
}

#[test]
fn activation_during_a_run_is_ignored() {
    let mut pipeline =
        Pipeline::new(echo_settings(Vec::new()), Platform::Other).expect("valid settings");
    pipeline.handle(activated(0, "first"), false);
    assert_eq!(pipeline.handle(activated(0, "second"), false), Action::Idle);
    assert_eq!(pipeline.state(), RunState::CapturingContext);
    assert_eq!(env_value(&pipeline, "CLIPBOARD"), Some("first"));
    pipeline.handle(captured("sel"), false);
    assert_eq!(pipeline.handle(activated(0, "third"), false), Action::Idle);
    assert_eq!(pipeline.state(), RunState::Generating);
}

#[test]
fn events_that_are_not_awaited_are_ignored() {
    let mut pipeline =
        Pipeline::new(echo_settings(Vec::new()), Platform::Other).expect("valid settings");
    for event in [captured("x"), fragment("x"), Event::StreamEnded, Event::Done, Event::Failed] {
        assert_eq!(pipeline.handle(event, true), Action::Idle);
        assert_eq!(pipeline.state(), RunState::Idle);
    }
    pipeline.handle(activated(0, "clip"), false);
    for event in [fragment("x"), Event::StreamEnded, Event::Done] {
        assert_eq!(pipeline.handle(event, true), Action::Idle);
        assert_eq!(pipeline.state(), RunState::CapturingContext);
    }
}

#[test]
fn captured_context_seeds_the_environment_and_starts_generation() {
    let mut settings = echo_settings(Vec::new());
    settings.prompts[0] = prompt("$CLIPBOARD|$SELECTION|$OCR");
    let mut pipeline = Pipeline::new(settings, Platform::Other).expect("valid settings");
    pipeline.handle(activated(0, "clip"), false);
    let action = pipeline.handle(
        Event::ContextCaptured {
            selection: "sel".to_string(),
            screen_text: Some("seen".to_string()),
        },
        false,
    );
    assert_eq!(
        action,
        echo_plan("clip|sel|seen", &[("CLIPBOARD", "clip"), ("SELECTION", "sel"), ("OCR", "seen")])
    );
    assert_eq!(pipeline.state(), RunState::Generating);
    assert_eq!(env_value(&pipeline, "SELECTION"), Some("sel"));
    assert_eq!(env_value(&pipeline, "OCR"), Some("seen"));
}

#[test]
fn service_plan_uses_the_model_of_the_environment() {
    let mut settings = Settings::default();
    settings.add_env_var("OLLAMA_MODEL".to_string(), "llama3".to_string());
    let mut pipeline = Pipeline::new(settings, Platform::Other).expect("valid settings");
    pipeline.handle(activated(1, "notes"), false);
    assert_eq!(
        pipeline.handle(captured("sum up"), false),
        Action::Generate(GenerationPlan::Service {
            model: "llama3".to_string(),
            prompt: "I will ask you to do something. Below is some extra context to help do what I ask. --------- notes --------- Given the above context, please, sum up. DO NOT OUTPUT ANYTHING ELSE.".to_string(),
        })
    );
    assert_eq!(pipeline.active_trigger(), 1);
}

#[test]
fn missing_variable_gives_the_run_up() {
    let mut settings = echo_settings(vec![Step::WriteFinalTextToScreen]);
    settings.prompts[0] = prompt("$SELECTION and $MISSING");
    let mut pipeline = Pipeline::new(settings, Platform::Other).expect("valid settings");
    pipeline.handle(activated(0, "clip"), false);
    assert_eq!(pipeline.handle(captured("sel"), false), Action::Restore("clip".to_string()));
    assert_eq!(pipeline.state(), RunState::Restoring);
    assert_eq!(
        pipeline.failure(),
        &Some(RunError::VariableResolution(VariableResolutionError {
            key: "MISSING".to_string()
        }))
    );
    assert_eq!(pipeline.handle(Event::Done, false), Action::Idle);
    assert!(pipeline.is_idle());
    assert_eq!(pipeline.handle(activated(0, "again"), false), Action::CaptureContext(SelectionAction::Remove));
    assert_eq!(pipeline.failure(), &None);
}

#[test]
fn live_output_is_typed_in_pieces() {
    let mut pipeline = started(echo_settings(vec![Step::StreamTextToScreen]), "clip", "hi");
    for text in ["a", "b", "c", "d", "e"] {
        assert_eq!(pipeline.handle(fragment(text), false), Action::NextFragment);
    }
    assert_eq!(pipeline.handle(fragment("f"), false), Action::TypeText("abcde".to_string()));
    assert_eq!(pipeline.state(), RunState::Generating);
    assert_eq!(pipeline.handle(fragment("early"), false), Action::Idle);
    assert_eq!(pipeline.handle(Event::Done, false), Action::NextFragment);
    assert_eq!(pipeline.handle(fragment("g"), false), Action::NextFragment);
    assert_eq!(pipeline.handle(Event::StreamEnded, false), Action::TypeText("fg".to_string()));
    assert_eq!(pipeline.state(), RunState::DispatchingSteps);
    assert_eq!(pipeline.handle(Event::Done, false), Action::Restore("clip".to_string()));
    assert_eq!(pipeline.state(), RunState::Restoring);
    assert_eq!(pipeline.handle(Event::Done, false), Action::Idle);
    assert!(pipeline.is_idle());
    assert_eq!(pipeline.failure(), &None);
}

#[test]
fn without_a_live_step_nothing_is_typed() {
    let mut pipeline = started(echo_settings(vec![Step::WriteFinalTextToScreen]), "clip", "hi");
    for text in ["a", "b", "c", "d", "e", "f", "g", "h"] {
        assert_eq!(pipeline.handle(fragment(text), false), Action::NextFragment);
    }
    assert_eq!(
        pipeline.handle(Event::StreamEnded, false),
        Action::PasteText("abcdefgh".to_string())
    );
    assert_eq!(pipeline.handle(Event::Done, false), Action::Restore("clip".to_string()));
}

#[test]
fn the_threshold_can_be_chosen() {
    let mut pipeline =
        Pipeline::with_threshold(echo_settings(vec![Step::StreamTextToScreen]), Platform::Other, 0)
            .expect("valid settings");
    pipeline.handle(activated(0, "clip"), false);
    pipeline.handle(captured("hi"), false);
    assert_eq!(pipeline.handle(fragment("a"), false), Action::NextFragment);
    assert_eq!(pipeline.handle(fragment("b"), false), Action::TypeText("a".to_string()));
}

#[test]
fn final_text_follows_the_selection_where_it_was_replaced() {
    let mut settings = echo_settings(vec![Step::WriteFinalTextToScreen]);
    settings.triggers[0].selection_action = Some(SelectionAction::Newline);
    let mut pipeline = Pipeline::new(settings, Platform::Other).expect("valid settings");
    assert_eq!(
        pipeline.handle(activated(0, "clip"), false),
        Action::CaptureContext(SelectionAction::Newline)
    );
    pipeline.handle(captured("question"), false);
    pipeline.handle(fragment("ans"), false);
    pipeline.handle(fragment("wer"), false);
    assert_eq!(
        pipeline.handle(Event::StreamEnded, false),
        Action::PasteText("question\n\nanswer".to_string())
    );
}

#[test]
fn steps_run_in_order_and_all_of_them() {
    let mut settings = echo_settings(vec![
        Step::StoreAsEnvVar("FIRST".to_string()),
        Step::WriteFinalTextToScreen,
        Step::Trigger(0),
        Step::StreamTextToScreen,
        Step::StoreAsEnvVar("SELECTION".to_string()),
    ]);
    settings.prompts[0] = prompt("<$SELECTION>");
    let mut pipeline = started(settings, "clip", "seed");
    assert_eq!(pipeline.handle(fragment("out"), false), Action::NextFragment);
    assert_eq!(pipeline.handle(Event::StreamEnded, false), Action::PasteText("out".to_string()));
    assert_eq!(env_value(&pipeline, "FIRST"), Some("out"));
    assert_eq!(env_value(&pipeline, "SELECTION"), Some("seed"));
    assert_eq!(pipeline.handle(Event::Done, false), Action::TypeText("out".to_string()));
    assert_eq!(
        pipeline.handle(Event::Done, false),
        echo_plan("<out>", &[("CLIPBOARD", "clip"), ("SELECTION", "out"), ("FIRST", "out")])
    );
    assert_eq!(pipeline.state(), RunState::Generating);
    assert_eq!(pipeline.whole_output(), "");
}

#[test]
fn stored_output_feeds_the_next_trigger() {
    let settings = Settings {
        environment: Environment::new(),
        processes: vec![ProcessType::Command(vec!["echo".to_string()])],
        prompts: vec![prompt("$SELECTION"), prompt("$X")],
        triggers: vec![
            trigger(0, 0, vec![Step::StoreAsEnvVar("X".to_string()), Step::Trigger(1)]),
            trigger(0, 1, vec![Step::WriteFinalTextToScreen]),
        ],
    };
    let mut pipeline = started(settings, "clip", "start");
    assert_eq!(pipeline.handle(fragment("hel"), false), Action::NextFragment);
    assert_eq!(pipeline.handle(fragment("lo"), false), Action::NextFragment);
    assert_eq!(
        pipeline.handle(Event::StreamEnded, false),
        echo_plan("hello", &[("CLIPBOARD", "clip"), ("SELECTION", "start"), ("X", "hello")])
    );
    assert_eq!(pipeline.state(), RunState::Generating);
    assert_eq!(pipeline.active_trigger(), 1);
    assert_eq!(env_value(&pipeline, "X"), Some("hello"));
    assert_eq!(env_value(&pipeline, "SELECTION"), Some("start"));
    assert_eq!(env_value(&pipeline, "CLIPBOARD"), Some("clip"));
    assert_eq!(pipeline.handle(fragment("HELLO"), false), Action::NextFragment);
    assert_eq!(
        pipeline.handle(Event::StreamEnded, false),
        Action::PasteText("HELLO".to_string())
    );
    assert_eq!(pipeline.handle(Event::Done, false), Action::Restore("clip".to_string()));
}

#[test]
fn a_chained_prompt_with_a_missing_key_gives_the_run_up() {
    let settings = Settings {
        environment: Environment::new(),
        processes: vec![ProcessType::Ollama],
        prompts: vec![prompt("$SELECTION"), prompt("$NOPE")],
        triggers: vec![trigger(0, 0, vec![Step::Trigger(1)]), trigger(0, 1, Vec::new())],
    };
    let mut pipeline = started(settings, "clip", "start");
    assert_eq!(pipeline.handle(Event::StreamEnded, false), Action::Restore("clip".to_string()));
    assert_eq!(
        pipeline.failure(),
        &Some(RunError::VariableResolution(VariableResolutionError { key: "NOPE".to_string() }))
    );
}

#[test]
fn cancelling_between_fragments_ends_the_run() {
    let settings = echo_settings(vec![
        Step::StoreAsEnvVar("KEPT".to_string()),
        Step::WriteFinalTextToScreen,
        Step::WriteImageToScreen,
    ]);
    let mut pipeline = started(settings, "before", "hi");
    assert_eq!(pipeline.handle(fragment("one"), false), Action::NextFragment);
    assert_eq!(pipeline.handle(fragment("two"), true), Action::Restore("before".to_string()));
    assert_eq!(pipeline.state(), RunState::Restoring);
    assert_eq!(env_value(&pipeline, "KEPT"), None);
    assert_eq!(pipeline.handle(fragment("three"), false), Action::Idle);
    assert_eq!(pipeline.handle(Event::StreamEnded, false), Action::Idle);
    assert_eq!(pipeline.handle(Event::Done, false), Action::Idle);
    assert!(pipeline.is_idle());
    assert_eq!(pipeline.failure(), &None);
    assert_eq!(env_value(&pipeline, "KEPT"), None);
}

#[test]
fn cancelling_is_seen_after_the_live_output_of_the_fragment() {
    let settings = echo_settings(vec![Step::StreamTextToScreen, Step::WriteFinalTextToScreen]);
    let mut pipeline =
        Pipeline::with_threshold(settings, Platform::Other, 0).expect("valid settings");
    pipeline.handle(activated(0, "before"), false);
    pipeline.handle(captured("hi"), false);
    assert_eq!(pipeline.handle(fragment("a"), false), Action::NextFragment);
    assert_eq!(pipeline.handle(fragment("b"), true), Action::TypeText("a".to_string()));
    assert_eq!(pipeline.state(), RunState::Generating);
    assert_eq!(pipeline.handle(Event::Done, true), Action::Restore("before".to_string()));
    assert_eq!(pipeline.state(), RunState::Restoring);
}

#[test]
fn picture_step_refuses_text_that_is_no_base64() {
    let settings = echo_settings(vec![Step::WriteImageToScreen, Step::WriteFinalTextToScreen]);
    let mut pipeline = started(settings, "before", "hi");
    pipeline.handle(fragment("this is no picture"), false);
    assert_eq!(pipeline.handle(Event::StreamEnded, false), Action::Restore("before".to_string()));
    assert_eq!(pipeline.state(), RunState::Restoring);
    assert_eq!(pipeline.failure(), &Some(RunError::Output(OutputError::InvalidBase64)));
    assert_eq!(pipeline.handle(Event::Done, false), Action::Idle);
    assert!(pipeline.is_idle());
}

#[test]
fn picture_step_refuses_bytes_that_are_no_image() {
    let mut pipeline = started(echo_settings(vec![Step::WriteImageToScreen]), "before", "hi");
    pipeline.handle(fragment("aGVsbG8=\n"), false);
    assert_eq!(pipeline.handle(Event::StreamEnded, false), Action::Restore("before".to_string()));
    assert_eq!(pipeline.failure(), &Some(RunError::Output(OutputError::InvalidImage)));
}

#[test]
fn picture_step_pastes_the_decoded_picture() {
    let mut pipeline = started(echo_settings(vec![Step::WriteImageToScreen]), "before", "hi");
    let (front, back) = RED_PIXEL.split_at(30);
    pipeline.handle(fragment(front), false);
    pipeline.handle(fragment(back), false);
    pipeline.handle(fragment("\n"), false);
    match pipeline.handle(Event::StreamEnded, false) {
        Action::PasteImage(picture) => {
            assert_eq!(picture.width(), 1);
            assert_eq!(picture.height(), 1);
            assert_eq!(picture.pixels(), &vec![255, 0, 0, 128]);
        }
        other => panic!("expected a picture, got {:?}", other),
    }
    assert_eq!(pipeline.state(), RunState::DispatchingSteps);
    assert_eq!(pipeline.handle(Event::Done, false), Action::Restore("before".to_string()));
}

#[test]
fn a_failed_action_gives_the_run_up() {
    let settings = echo_settings(vec![
        Step::WriteFinalTextToScreen,
        Step::StoreAsEnvVar("LATER".to_string()),
    ]);
    let mut pipeline = started(settings, "before", "hi");
    pipeline.handle(fragment("text"), false);
    assert_eq!(pipeline.handle(Event::StreamEnded, false), Action::PasteText("text".to_string()));
    assert_eq!(pipeline.handle(Event::Failed, false), Action::Restore("before".to_string()));
    assert_eq!(pipeline.failure(), &Some(RunError::Output(OutputError::SinkFailed)));
    assert_eq!(env_value(&pipeline, "LATER"), None);
    assert_eq!(pipeline.handle(Event::Failed, false), Action::Idle);
    assert!(pipeline.is_idle());
}

#[test]
fn a_failure_while_capturing_or_generating_gives_the_run_up() {
    let mut pipeline = Pipeline::new(echo_settings(vec![Step::StreamTextToScreen]), Platform::Other)
        .expect("valid settings");
    pipeline.handle(activated(0, "before"), false);
    assert_eq!(pipeline.handle(Event::Failed, false), Action::Restore("before".to_string()));
    assert_eq!(pipeline.failure(), &Some(RunError::Output(OutputError::SinkFailed)));
    pipeline.handle(Event::Done, false);

    let mut pipeline =
        Pipeline::with_threshold(echo_settings(vec![Step::StreamTextToScreen]), Platform::Other, 0)
            .expect("valid settings");
    pipeline.handle(activated(0, "before"), false);
    pipeline.handle(captured("hi"), false);
    pipeline.handle(fragment("a"), false);
    assert_eq!(pipeline.handle(fragment("b"), false), Action::TypeText("a".to_string()));
    assert_eq!(pipeline.handle(Event::Failed, false), Action::Restore("before".to_string()));
    assert_eq!(pipeline.state(), RunState::Restoring);
}

#[test]
fn restoring_that_fails_is_recorded() {
    let mut pipeline = started(echo_settings(Vec::new()), "before", "hi");
    assert_eq!(pipeline.handle(Event::StreamEnded, false), Action::Restore("before".to_string()));
    assert_eq!(pipeline.handle(Event::Failed, false), Action::Idle);
    assert!(pipeline.is_idle());
    assert_eq!(pipeline.failure(), &Some(RunError::Output(OutputError::SinkFailed)));
}

#[test]
fn the_environment_outlives_the_run() {
    let settings = echo_settings(vec![Step::StoreAsEnvVar("LAST".to_string())]);
    let mut pipeline = started(settings, "before", "hi");
    pipeline.handle(fragment("kept"), false);
    pipeline.handle(Event::StreamEnded, false);
    pipeline.handle(Event::Done, false);
    assert!(pipeline.is_idle());
    assert_eq!(env_value(&pipeline, "LAST"), Some("kept"));
    pipeline.handle(activated(0, "newer"), false);
    assert_eq!(env_value(&pipeline, "LAST"), Some("kept"));
    assert_eq!(env_value(&pipeline, "CLIPBOARD"), Some("newer"));
}

#[test]
fn echo_run_types_what_the_command_printed() {
    let settings = echo_settings(vec![Step::StreamTextToScreen]);
    let mut pipeline =
        Pipeline::with_threshold(settings, Platform::Other, 1).expect("valid settings");
    pipeline.handle(activated(0, "before"), false);
    let plan = match pipeline.handle(captured("hi"), false) {
        Action::Generate(plan) => plan,
        other => panic!("expected a plan, got {:?}", other),
    };
    assert_eq!(
        Action::Generate(plan),
        echo_plan("hi", &[("CLIPBOARD", "before"), ("SELECTION", "hi")])
    );
    let plan = GenerationPlan::Command {
        program: "echo".to_string(),
        arguments: vec!["hi".to_string()],
        environment: Vec::new(),
    };

    let printed: [&[u8]; 3] = [b"h", b"i", b"\n"];
    let mut reads: Vec<GeneratorEvent> = vec![GeneratorEvent::Started];
    for chunk in printed {
        reads.push(GeneratorEvent::Read(chunk.to_vec()));
        reads.push(GeneratorEvent::Read(Vec::new()));
    }
    reads.push(GeneratorEvent::Read(Vec::new()));
    reads.push(GeneratorEvent::Read(Vec::new()));

    let mut generator = Generator::new(&plan);
    let mut typed = String::new();
    let mut answer = Action::NextFragment;
    for read in reads {
        let output = generator.step(read);
        for text in output.fragments {
            assert_eq!(answer, Action::NextFragment);
            answer = pipeline.handle(Event::Fragment(text), false);
            if let Action::TypeText(delta) = &answer {
                typed.push_str(delta);
                answer = pipeline.handle(Event::Done, false);
            }
        }
        if output.request == GeneratorRequest::Stop {
            break;
        }
    }
    assert!(generator.is_finished());
    assert_eq!(answer, Action::NextFragment);
    answer = pipeline.handle(Event::StreamEnded, false);
    while let Action::TypeText(delta) = &answer {
        typed.push_str(delta);
        answer = pipeline.handle(Event::Done, false);
    }
    assert_eq!(typed, "hi\n");
    assert_eq!(pipeline.whole_output(), "hi\n");
    assert_eq!(answer, Action::Restore("before".to_string()));
}

#[test]
fn the_controller_cancels_and_is_reset_at_the_end() {
    let settings = echo_settings(vec![Step::WriteFinalTextToScreen]);
    let mut pipeline = Pipeline::new(settings, Platform::Other).expect("valid settings");
    let mut controller = CancellationController::new(1);
    controller.arm(0);
    assert_eq!(controller.observe(KeyEvent::Other), Some(0));
    assert_eq!(
        pipeline.handle_with(activated(0, "before"), &mut controller),
        Action::CaptureContext(SelectionAction::Remove)
    );
    pipeline.handle_with(captured("hi"), &mut controller);
    assert_eq!(pipeline.handle_with(fragment("a"), &mut controller), Action::NextFragment);
    controller.observe(KeyEvent::Press(1));
    controller.observe(KeyEvent::Press(7));
    assert!(controller.cancel_requested());
    assert_eq!(
        pipeline.handle_with(fragment("b"), &mut controller),
        Action::Restore("before".to_string())
    );
    assert!(controller.cancel_requested());
    assert!(controller.is_running());
    assert_eq!(pipeline.handle_with(Event::Done, &mut controller), Action::Idle);
    assert!(pipeline.is_idle());
    assert!(!controller.cancel_requested());
    assert!(!controller.is_running());
    controller.arm(0);
    assert_eq!(controller.observe(KeyEvent::Other), Some(0));
}

#[test]
fn an_activation_that_is_ignored_frees_the_controller() {
    let mut pipeline =
        Pipeline::new(echo_settings(Vec::new()), Platform::Other).expect("valid settings");
    let mut controller = CancellationController::new(1);
    controller.arm(5);
    assert_eq!(controller.observe(KeyEvent::Other), Some(5));
    assert!(controller.is_running());
    assert_eq!(pipeline.handle_with(activated(5, "clip"), &mut controller), Action::Idle);
    assert!(!controller.is_running());
}

#[test]
fn pipeline_with_defaults_runs_the_default_triggers() {
    let mut pipeline = Pipeline::with_defaults(Platform::MacOs);
    assert!(pipeline.is_idle());
    assert_eq!(
        pipeline.settings().triggers[0].trigger_with_shortcut.as_deref(),
        Some("Command+Shift+.")
    );
    pipeline.handle(activated(0, "clip"), false);
    assert_eq!(
        pipeline.handle(captured("say hi"), false),
        Action::Generate(GenerationPlan::Service {
            model: "openhermes2.5-mistral".to_string(),
            prompt: "say hi".to_string(),
        })
    );
}
