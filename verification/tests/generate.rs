use larql_backend::backend::{LarqlBackend, LARQL_BACKEND_ID};
use larql_backend::error::ProviderError;
use larql_backend::generate::{
    GenerateAction, GenerateEvent, Generation, ProviderUsage, Usage, GENERATE_TIMEOUT_SECS,
};
use larql_backend::message::{Message, MessageContent, Role};
use larql_backend::prompt::ChatMessage;

fn start() -> Generation {
    let messages = vec![ChatMessage { role: Role::User, content: vec!["two words".to_string()] }];
    LarqlBackend::new().generate("model", "", &messages)
}

fn listening() -> Generation {
    let mut generation = start();
    generation.answer(GenerateEvent::ModelChecked { matches: true });
    generation.answer(GenerateEvent::ChildRunning);
    generation.answer(GenerateEvent::Written);
    generation.answer(GenerateEvent::Flushed);
    generation
}

fn reading() -> Generation {
    let mut generation = listening();
    generation.answer(GenerateEvent::Clock { elapsed_secs: GENERATE_TIMEOUT_SECS - 1 });
    generation.answer(GenerateEvent::BoundaryNotSeen);
    assert_eq!(generation.action(), GenerateAction::ReadLine { millis: 50 });
    generation
}

fn failure(generation: &Generation) -> String {
    match generation.action() {
        GenerateAction::Finish(Err(ProviderError::ExecutionError(text))) => text,
        other => panic!("{other:?}"),
    }
}

#[test]
fn the_backend_has_its_identifier() {
    assert_eq!(LarqlBackend::new().id(), "larql");
    assert_eq!(LARQL_BACKEND_ID, "larql");
}

#[test]
fn a_turn_runs_from_prompt_to_usage() {
    let mut generation = start();
    assert_eq!(generation.action(), GenerateAction::CheckModel);
    generation.answer(GenerateEvent::ModelChecked { matches: true });
    assert_eq!(generation.action(), GenerateAction::PollChild);
    generation.answer(GenerateEvent::ChildRunning);
    assert_eq!(generation.action(), GenerateAction::WriteLine("User: two words".to_string()));
    generation.answer(GenerateEvent::Written);
    assert_eq!(generation.action(), GenerateAction::Flush);
    generation.answer(GenerateEvent::Flushed);
    for line in ["Four words in here\n", "and more"] {
        assert_eq!(generation.action(), GenerateAction::ReadClock);
        generation.answer(GenerateEvent::Clock { elapsed_secs: 1 });
        assert_eq!(generation.action(), GenerateAction::AwaitBoundary { millis: 50 });
        generation.answer(GenerateEvent::BoundaryNotSeen);
        assert_eq!(generation.action(), GenerateAction::ReadLine { millis: 50 });
        generation.answer(GenerateEvent::LineRead { line: line.to_string() });
        assert_eq!(
            generation.action(),
            GenerateAction::SendMessage(Message {
                role: Role::Assistant,
                content: vec![MessageContent::Text(line.to_string())],
            })
        );
        generation.answer(GenerateEvent::Sent);
    }
    generation.answer(GenerateEvent::Clock { elapsed_secs: 2 });
    assert!(generation.usage_fits());
    generation.answer(GenerateEvent::BoundarySeen);
    assert_eq!(
        generation.action(),
        GenerateAction::SendUsage(ProviderUsage {
            model: "model".to_string(),
            usage: Usage {
                input_tokens: Some(3),
                output_tokens: Some(6),
                total_tokens: Some(9),
            },
        })
    );
    generation.answer(GenerateEvent::Sent);
    assert_eq!(generation.action(), GenerateAction::Finish(Ok(())));
    generation.answer(GenerateEvent::OutputClosed);
    assert_eq!(generation.action(), GenerateAction::Finish(Ok(())));
}

#[test]
fn a_foreign_model_is_refused() {
    let mut generation = start();
    generation.answer(GenerateEvent::ModelChecked { matches: false });
    assert_eq!(failure(&generation), "larql backend: loaded-model type mismatch");
}

#[test]
fn an_exited_child_is_not_written_to() {
    let mut generation = start();
    generation.answer(GenerateEvent::ModelChecked { matches: true });
    generation.answer(GenerateEvent::ChildExited { status: "exit status: 1".to_string() });
    let text = "larql backend: 'larql chat' child exited before generate() (status: exit status: 1)";
    assert_eq!(failure(&generation), text);
    generation.answer(GenerateEvent::ChildRunning);
    assert_eq!(failure(&generation), text);
}

#[test]
fn failed_writes_are_reported() {
    let mut generation = start();
    generation.answer(GenerateEvent::ModelChecked { matches: true });
    generation.answer(GenerateEvent::ChildRunning);
    generation.answer(GenerateEvent::WriteFailed { reason: "broken pipe".to_string() });
    assert_eq!(failure(&generation), "larql backend: failed to write stdin: broken pipe");

    let mut generation = start();
    generation.answer(GenerateEvent::ModelChecked { matches: true });
    generation.answer(GenerateEvent::ChildRunning);
    generation.answer(GenerateEvent::Written);
    generation.answer(GenerateEvent::FlushFailed { reason: "broken pipe".to_string() });
    assert_eq!(failure(&generation), "larql backend: failed to flush stdin: broken pipe");
}

#[test]
fn time_runs_out() {
    let mut generation = listening();
    generation.answer(GenerateEvent::Clock { elapsed_secs: 120 });
    assert_eq!(
        failure(&generation),
        "larql backend: generate() exceeded 120s with no turn-boundary signal — treating as a fault, not 'still working' (see AC-5)"
    );
}

#[test]
fn overdue_turns_end_wherever_they_are() {
    let mut generation = listening();
    generation.answer(GenerateEvent::Clock { elapsed_secs: 119 });
    generation.answer(GenerateEvent::BoundaryNotSeen);
    generation.answer(GenerateEvent::LineRead { line: "late\n".to_string() });
    generation.answer(GenerateEvent::Sent);
    generation.answer(GenerateEvent::Clock { elapsed_secs: 500 });
    assert!(failure(&generation).starts_with("larql backend: generate() exceeded 120s"));
}

#[test]
fn unreadable_output_is_tried_again() {
    let mut generation = reading();
    generation.answer(GenerateEvent::NothingRead);
    assert_eq!(generation.action(), GenerateAction::ReadClock);
}

#[test]
fn closed_output_is_a_fault() {
    let mut generation = reading();
    generation.answer(GenerateEvent::OutputClosed);
    assert_eq!(
        failure(&generation),
        "larql backend: child stdout closed before a turn-boundary signal (the 'larql chat' process likely crashed mid-generation)"
    );
}

#[test]
fn stray_reports_change_nothing() {
    let mut generation = reading();
    generation.answer(GenerateEvent::Sent);
    generation.answer(GenerateEvent::Written);
    generation.answer(GenerateEvent::Clock { elapsed_secs: 999 });
    assert_eq!(generation.action(), GenerateAction::ReadLine { millis: 50 });
}

#[test]
fn lines_outside_of_reading_are_not_sent() {
    let mut generation = listening();
    generation.answer(GenerateEvent::LineRead { line: "stray\n".to_string() });
    assert_eq!(generation.action(), GenerateAction::ReadClock);
    generation.answer(GenerateEvent::Clock { elapsed_secs: 0 });
    generation.answer(GenerateEvent::BoundarySeen);
    match generation.action() {
        GenerateAction::SendUsage(sent) => assert_eq!(sent.usage.output_tokens, Some(0)),
        other => panic!("{other:?}"),
    }
    generation.answer(GenerateEvent::Sent);
    generation.answer(GenerateEvent::Sent);
    assert_eq!(generation.action(), GenerateAction::Finish(Ok(())));
}
