use trigger_pipeline::environment::Environment;
use trigger_pipeline::generator::{
    model_name, plan, GenerationPlan, Generator, GeneratorEvent, GeneratorOutput,
    GeneratorRequest, GeneratorState,
};
use trigger_pipeline::settings::{Platform, ProcessType};

fn words(list: &[&str]) -> Vec<String> {
    list.iter().map(|s| s.to_string()).collect()
}

fn command_plan() -> GenerationPlan {
    GenerationPlan::Command {
        program: "echo".to_string(),
        arguments: words(&["hi"]),
        environment: Vec::new(),
    }
}

fn service_plan() -> GenerationPlan {
    GenerationPlan::Service { model: "m".to_string(), prompt: "p".to_string() }
}

fn output(fragments: &[&str], request: GeneratorRequest) -> GeneratorOutput {
    GeneratorOutput { fragments: words(fragments), request }
}

#[test]
fn model_comes_from_the_environment_or_the_default() {
    let mut env = Environment::new();
    assert_eq!(model_name(&env), "openhermes2.5-mistral");
    env.insert("OLLAMA_MODEL".to_string(), "llama3".to_string());
    assert_eq!(model_name(&env), "llama3");
}

#[test]
fn service_plan_carries_model_and_prompt() {
    let mut env = Environment::new();
    env.insert("OLLAMA_MODEL".to_string(), "llama3".to_string());
    assert_eq!(
        plan(&ProcessType::Ollama, "say hi".to_string(), &env, Platform::Other),
        GenerationPlan::Service { model: "llama3".to_string(), prompt: "say hi".to_string() }
    );
}

#[test]
fn command_gets_the_prompt_as_last_argument() {
    let mut env = Environment::new();
    assert_eq!(
        plan(&ProcessType::Command(words(&["echo"])), "hi".to_string(), &env, Platform::Windows),
        command_plan()
    );
    env.insert("SELECTION".to_string(), "chosen".to_string());
    env.insert("OLLAMA_MODEL".to_string(), "llama3".to_string());
    assert_eq!(
        plan(
            &ProcessType::Command(words(&["bash", "/path/to/gpt.sh", "-x"])),
            "the prompt".to_string(),
            &env,
            Platform::Other
        ),
        GenerationPlan::Command {
            program: "bash".to_string(),
            arguments: words(&["/path/to/gpt.sh", "-x", "the prompt"]),
            environment: vec![
                ("SELECTION".to_string(), "chosen".to_string()),
                ("OLLAMA_MODEL".to_string(), "llama3".to_string()),
            ],
        }
    );
}

#[test]
fn empty_command_runs_the_shell() {
    let env = Environment::new();
    for platform in [Platform::Other, Platform::MacOs] {
        assert_eq!(
            plan(&ProcessType::Command(Vec::new()), "ls | wc".to_string(), &env, platform),
            GenerationPlan::Command {
                program: "sh".to_string(),
                arguments: words(&["-c", "ls | wc"]),
                environment: Vec::new(),
            }
        );
    }
    assert_eq!(
        plan(&ProcessType::Command(Vec::new()), "dir".to_string(), &env, Platform::Windows),
        GenerationPlan::Command {
            program: "cmd".to_string(),
            arguments: words(&["/C", "dir"]),
            environment: Vec::new(),
        }
    );
}

#[test]
fn generator_begins_by_starting() {
    let generator = Generator::new(&command_plan());
    assert_eq!(generator.state(), GeneratorState::Spawning);
    assert_eq!(generator.request(), GeneratorRequest::Start);
    assert!(!generator.is_finished());
    let generator = Generator::new(&service_plan());
    assert_eq!(generator.state(), GeneratorState::Opening);
    assert_eq!(generator.request(), GeneratorRequest::Start);
}

#[test]
fn failed_start_gives_one_fragment_and_ends() {
    for plan in [command_plan(), service_plan()] {
        let mut generator = Generator::new(&plan);
        assert_eq!(
            generator.step(GeneratorEvent::StartFailed("No such file".to_string())),
            output(&["No such file"], GeneratorRequest::Stop)
        );
        assert!(generator.is_finished());
        assert_eq!(
            generator.step(GeneratorEvent::Read(b"late".to_vec())),
            output(&[], GeneratorRequest::Stop)
        );
    }
}

#[test]
fn command_alternates_between_its_pipes() {
    let mut generator = Generator::new(&command_plan());
    assert_eq!(
        generator.step(GeneratorEvent::Started),
        output(&[], GeneratorRequest::ReadOutput)
    );
    assert_eq!(
        generator.step(GeneratorEvent::Read(b"hi\n".to_vec())),
        output(&["hi\n"], GeneratorRequest::ReadErrors)
    );
    assert_eq!(generator.state(), GeneratorState::ReadingErrors { last: false });
    assert_eq!(
        generator.step(GeneratorEvent::Read(b"warn".to_vec())),
        output(&["warn"], GeneratorRequest::ReadOutput)
    );
    assert_eq!(
        generator.step(GeneratorEvent::Read(Vec::new())),
        output(&[], GeneratorRequest::ReadErrors)
    );
    assert_eq!(generator.state(), GeneratorState::ReadingErrors { last: true });
    assert_eq!(
        generator.step(GeneratorEvent::Read(Vec::new())),
        output(&[""], GeneratorRequest::Stop)
    );
    assert!(generator.is_finished());
}

#[test]
fn read_failure_ends_without_a_fragment() {
    let mut generator = Generator::new(&command_plan());
    generator.step(GeneratorEvent::Started);
    assert_eq!(
        generator.step(GeneratorEvent::ReadFailed),
        output(&[], GeneratorRequest::Stop)
    );
    let mut generator = Generator::new(&command_plan());
    generator.step(GeneratorEvent::Started);
    generator.step(GeneratorEvent::Read(b"x".to_vec()));
    assert_eq!(
        generator.step(GeneratorEvent::ReadFailed),
        output(&[], GeneratorRequest::Stop)
    );
    assert!(generator.is_finished());
}

#[test]
fn chunks_are_decoded_with_repair() {
    let mut generator = Generator::new(&command_plan());
    generator.step(GeneratorEvent::Started);
    assert_eq!(
        generator.step(GeneratorEvent::Read(vec![b'a', 0xff, b'b'])),
        output(&["a\u{fffd}b"], GeneratorRequest::ReadErrors)
    );
    assert_eq!(
        generator.step(GeneratorEvent::Read("é✓".as_bytes().to_vec())),
        output(&["é✓"], GeneratorRequest::ReadOutput)
    );
    assert_eq!(
        generator.step(GeneratorEvent::Read(vec![0xc3])),
        output(&["\u{fffd}"], GeneratorRequest::ReadErrors)
    );
}

#[test]
fn service_hands_on_each_response() {
    let mut generator = Generator::new(&service_plan());
    assert_eq!(
        generator.step(GeneratorEvent::Started),
        output(&[], GeneratorRequest::AwaitResponses)
    );
    assert_eq!(
        generator.step(GeneratorEvent::Responses(words(&["Hel", "lo"]))),
        output(&["Hel", "lo"], GeneratorRequest::AwaitResponses)
    );
    assert_eq!(
        generator.step(GeneratorEvent::Responses(Vec::new())),
        output(&[], GeneratorRequest::AwaitResponses)
    );
    assert_eq!(generator.step(GeneratorEvent::Closed), output(&[], GeneratorRequest::Stop));
    assert!(generator.is_finished());
}

#[test]
fn an_event_that_is_not_awaited_ends_the_sequence() {
    let mut generator = Generator::new(&service_plan());
    generator.step(GeneratorEvent::Started);
    assert_eq!(
        generator.step(GeneratorEvent::Read(b"bytes".to_vec())),
        output(&[], GeneratorRequest::Stop)
    );
    let mut generator = Generator::new(&command_plan());
    assert_eq!(
        generator.step(GeneratorEvent::Responses(words(&["x"]))),
        output(&[], GeneratorRequest::Stop)
    );
    let mut generator = Generator::new(&command_plan());
    generator.step(GeneratorEvent::Started);
    assert_eq!(generator.step(GeneratorEvent::Started), output(&[], GeneratorRequest::Stop));
}
