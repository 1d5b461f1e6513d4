//! One turn of `larql chat`: what to do next, and what to make of the outcome.
//!
//! A [`Generation`] names one action at a time; the caller performs it and reports what happened.
//! The prompt goes in as one line. Then, until the next turn prompt shows that the answer is
//! complete, the clock is looked at, the turn prompt is waited for a moment, and a line of the
//! answer is read and passed on.
use crate::error::ProviderError;
use crate::message::{assistant_says, ContentView, Message, MessageView, Role};
use crate::text::{
    count_words, decimal, decimal_string, is_white_space, words_do_not_cross_white_space, word_count,
};
use vstd::prelude::*;
use vstd::string::StringExecFns;

verus! {

/// Hard ceiling on one generation, in seconds. A hung child must not hang the caller forever.
pub const GENERATE_TIMEOUT_SECS: u64 = 120;

/// How long to wait for the turn prompt before looking for more of the answer, in milliseconds.
pub const BOUNDARY_WAIT_MILLIS: u64 = 50;

/// How long to wait for a line of the answer before looking at the clock again, in milliseconds. A
/// silent child must not hold up the time limit.
pub const READ_WAIT_MILLIS: u64 = 50;

/// Approximate token counts: words, not the tokens of a real tokenizer.
#[derive(Debug, Clone, Copy, PartialEq, Eq, Structural)]
pub struct Usage {
    pub input_tokens: Option<i32>,
    pub output_tokens: Option<i32>,
    pub total_tokens: Option<i32>,
}

/// The usage of one generation, under the name of the model.
#[derive(Debug, PartialEq, Eq)]
pub struct ProviderUsage {
    pub model: String,
    pub usage: Usage,
}

/// What has to be done next in a generation.
#[derive(Debug, PartialEq)]
pub enum GenerateAction {
    /// Find out whether the loaded model belongs to this backend.
    CheckModel,
    /// Find out whether the child has exited already.
    PollChild,
    /// Write the line, and a line feed, to the child's standard input.
    WriteLine(String),
    /// Flush the child's standard input.
    Flush,
    /// Find out how long ago the prompt was handed over.
    ReadClock,
    /// Wait so long for a turn prompt.
    AwaitBoundary { millis: u64 },
    /// Wait so long for a line from the child's standard output.
    ReadLine { millis: u64 },
    /// Pass the message on.
    SendMessage(Message),
    /// Pass the usage on.
    SendUsage(ProviderUsage),
    /// Nothing more: this is the outcome.
    Finish(Result<(), ProviderError>),
}

/// What came of an action.
#[derive(Debug, PartialEq, Eq)]
pub enum GenerateEvent {
    ModelChecked { matches: bool },
    ChildRunning,
    /// The child has exited; `status` says how.
    ChildExited { status: String },
    Written,
    WriteFailed { reason: String },
    Flushed,
    FlushFailed { reason: String },
    Clock { elapsed_secs: u64 },
    BoundarySeen,
    BoundaryNotSeen,
    /// A line was read, its line feed included.
    LineRead { line: String },
    /// Nothing could be read in that time.
    NothingRead,
    /// The standard output is closed.
    OutputClosed,
    /// The message or the usage was passed on, or nobody was there to take it.
    Sent,
}

/// How far a generation has come.
enum Stage {
    CheckModel,
    PollChild,
    Write,
    Flush,
    ReadClock,
    AwaitBoundary,
    ReadLine,
    SendLine { line: String },
    SendUsage { usage: Usage },
    Done,
    Failed { error: ProviderError },
}

/// One generation.
pub struct Generation {
    model_name: String,
    prompt: String,
    collected: String,
    stage: Stage,
}

// ---------------------------------------------------------------------------
// The model
// ---------------------------------------------------------------------------

/// How far a generation has come.
pub enum StageView {
    CheckModel,
    PollChild,
    Write,
    Flush,
    ReadClock,
    AwaitBoundary,
    ReadLine,
    SendLine { line: Seq<char> },
    SendUsage { usage: Usage },
    Done,
    Failed { error: Seq<char> },
}

/// The state of a [`Generation`].
pub struct GenerationView {
    pub model_name: Seq<char>,
    pub prompt: Seq<char>,
    /// What has been read of the answer.
    pub collected: Seq<char>,
    pub stage: StageView,
}

/// What a [`GenerateAction`] says.
pub enum GenerateActionView {
    CheckModel,
    PollChild,
    WriteLine(Seq<char>),
    Flush,
    ReadClock,
    AwaitBoundary { millis: u64 },
    ReadLine { millis: u64 },
    SendMessage(MessageView),
    SendUsage { model: Seq<char>, usage: Usage },
    Finish(Result<(), Seq<char>>),
}

impl View for GenerateAction {
    type V = GenerateActionView;

    open spec fn view(&self) -> GenerateActionView {
        match self {
            GenerateAction::CheckModel => GenerateActionView::CheckModel,
            GenerateAction::PollChild => GenerateActionView::PollChild,
            GenerateAction::WriteLine(line) => GenerateActionView::WriteLine(line@),
            GenerateAction::Flush => GenerateActionView::Flush,
            GenerateAction::ReadClock => GenerateActionView::ReadClock,
            GenerateAction::AwaitBoundary { millis } => GenerateActionView::AwaitBoundary {
                millis: *millis,
            },
            GenerateAction::ReadLine { millis } => GenerateActionView::ReadLine { millis: *millis },
            GenerateAction::SendMessage(message) => GenerateActionView::SendMessage(message@),
            GenerateAction::SendUsage(usage) => GenerateActionView::SendUsage {
                model: usage.model@,
                usage: usage.usage,
            },
            GenerateAction::Finish(outcome) => GenerateActionView::Finish(
                match outcome {
                    Ok(_) => Ok(()),
                    Err(error) => Err(error@),
                },
            ),
        }
    }
}

impl View for Stage {
    type V = StageView;

    closed spec fn view(&self) -> StageView {
        match self {
            Stage::CheckModel => StageView::CheckModel,
            Stage::PollChild => StageView::PollChild,
            Stage::Write => StageView::Write,
            Stage::Flush => StageView::Flush,
            Stage::ReadClock => StageView::ReadClock,
            Stage::AwaitBoundary => StageView::AwaitBoundary,
            Stage::ReadLine => StageView::ReadLine,
            Stage::SendLine { line } => StageView::SendLine { line: line@ },
            Stage::SendUsage { usage } => StageView::SendUsage { usage: *usage },
            Stage::Done => StageView::Done,
            Stage::Failed { error } => StageView::Failed { error: error@ },
        }
    }
}

impl View for Generation {
    type V = GenerationView;

    closed spec fn view(&self) -> GenerationView {
        GenerationView {
            model_name: self.model_name@,
            prompt: self.prompt@,
            collected: self.collected@,
            stage: self.stage@,
        }
    }
}

/// The approximate number of tokens in `text`: its words, as far as an `i32` can count them (beyond
/// that the count wraps round).
pub open spec fn approx_tokens(text: Seq<char>) -> i32 {
    #[verifier::truncate]
    (word_count(text) as i32)
}

impl GenerationView {
    /// Whether the token counts of the generation add up within an `i32`.
    pub open spec fn usage_fits(self) -> bool {
        i32::MIN <= approx_tokens(self.prompt) + approx_tokens(self.collected) <= i32::MAX
    }

    /// The usage of the generation so far.
    pub open spec fn usage(self) -> Usage {
        let input = approx_tokens(self.prompt);
        let output = approx_tokens(self.collected);
        Usage {
            input_tokens: Some(input),
            output_tokens: Some(output),
            total_tokens: Some((input + output) as i32),
        }
    }

    /// What has to be done next.
    pub open spec fn action(self) -> GenerateActionView {
        match self.stage {
            StageView::CheckModel => GenerateActionView::CheckModel,
            StageView::PollChild => GenerateActionView::PollChild,
            StageView::Write => GenerateActionView::WriteLine(self.prompt),
            StageView::Flush => GenerateActionView::Flush,
            StageView::ReadClock => GenerateActionView::ReadClock,
            StageView::AwaitBoundary => GenerateActionView::AwaitBoundary {
                millis: BOUNDARY_WAIT_MILLIS,
            },
            StageView::ReadLine => GenerateActionView::ReadLine { millis: READ_WAIT_MILLIS },
            StageView::SendLine { line } => GenerateActionView::SendMessage(
                assistant_says(ContentView::Text(line)),
            ),
            StageView::SendUsage { usage } => GenerateActionView::SendUsage {
                model: self.model_name,
                usage,
            },
            StageView::Done => GenerateActionView::Finish(Ok(())),
            StageView::Failed { error } => GenerateActionView::Finish(Err(error)),
        }
    }

    /// The state in the stage `stage`.
    pub open spec fn at(self, stage: StageView) -> GenerationView {
        GenerationView { stage, ..self }
    }

    /// The state after a failure.
    pub open spec fn failed(self, error: Seq<char>) -> GenerationView {
        self.at(StageView::Failed { error })
    }

    /// The state after `event`. An event that does not answer the current action changes nothing.
    pub open spec fn next(self, event: GenerateEvent) -> GenerationView {
        match (self.stage, event) {
            (StageView::CheckModel, GenerateEvent::ModelChecked { matches }) => if matches {
                self.at(StageView::PollChild)
            } else {
                self.failed("larql backend: loaded-model type mismatch"@)
            },
            (StageView::PollChild, GenerateEvent::ChildRunning) => self.at(StageView::Write),
            (StageView::PollChild, GenerateEvent::ChildExited { status }) => self.failed(
                "larql backend: 'larql chat' child exited before generate() (status: "@ + status@
                    + ")"@,
            ),
            (StageView::Write, GenerateEvent::Written) => self.at(StageView::Flush),
            (StageView::Write, GenerateEvent::WriteFailed { reason }) => self.failed(
                "larql backend: failed to write stdin: "@ + reason@,
            ),
            (StageView::Flush, GenerateEvent::Flushed) => self.at(StageView::ReadClock),
            (StageView::Flush, GenerateEvent::FlushFailed { reason }) => self.failed(
                "larql backend: failed to flush stdin: "@ + reason@,
            ),
            (StageView::ReadClock, GenerateEvent::Clock { elapsed_secs }) => if elapsed_secs
                >= GENERATE_TIMEOUT_SECS {
                self.failed(timed_out())
            } else {
                self.at(StageView::AwaitBoundary)
            },
            (StageView::AwaitBoundary, GenerateEvent::BoundarySeen) => self.at(
                StageView::SendUsage { usage: self.usage() },
            ),
            (StageView::AwaitBoundary, GenerateEvent::BoundaryNotSeen) => self.at(
                StageView::ReadLine,
            ),
            (StageView::ReadLine, GenerateEvent::LineRead { line }) => GenerationView {
                collected: self.collected + line@,
                stage: StageView::SendLine { line: line@ },
                ..self
            },
            (StageView::ReadLine, GenerateEvent::NothingRead) => self.at(StageView::ReadClock),
            (StageView::ReadLine, GenerateEvent::OutputClosed) => self.failed(output_closed()),
            (StageView::SendLine { line }, GenerateEvent::Sent) => self.at(StageView::ReadClock),
            (StageView::SendUsage { usage }, GenerateEvent::Sent) => self.at(StageView::Done),
            _ => self,
        }
    }
}

/// The error of a generation that took too long.
pub open spec fn timed_out() -> Seq<char> {
    "larql backend: generate() exceeded "@ + decimal(GENERATE_TIMEOUT_SECS as nat)
        + "s with no turn-boundary signal — treating as a fault, not 'still working' (see AC-5)"@
}

/// The error of a generation whose child went away.
pub open spec fn output_closed() -> Seq<char> {
    "larql backend: child stdout closed before a turn-boundary signal (the 'larql chat' process likely crashed mid-generation)"@
}

// ---------------------------------------------------------------------------
// The machine
// ---------------------------------------------------------------------------

impl Generation {
    /// A generation that hands `prompt` to the model `model_name`.
    pub fn new(model_name: &str, prompt: String) -> (generation: Generation)
        ensures
            generation@ == (GenerationView {
                model_name: model_name@,
                prompt: prompt@,
                collected: Seq::empty(),
                stage: StageView::CheckModel,
            }),
    {
        Generation {
            model_name: model_name.to_owned(),
            prompt,
            collected: String::new(),
            stage: Stage::CheckModel,
        }
    }

    /// What has to be done next.
    pub fn action(&self) -> (action: GenerateAction)
        ensures
            action@ == self@.action(),
    {
        match &self.stage {
            Stage::CheckModel => GenerateAction::CheckModel,
            Stage::PollChild => GenerateAction::PollChild,
            Stage::Write => GenerateAction::WriteLine(self.prompt.clone()),
            Stage::Flush => GenerateAction::Flush,
            Stage::ReadClock => GenerateAction::ReadClock,
            Stage::AwaitBoundary => GenerateAction::AwaitBoundary { millis: BOUNDARY_WAIT_MILLIS },
            Stage::ReadLine => GenerateAction::ReadLine { millis: READ_WAIT_MILLIS },
            Stage::SendLine { line } => GenerateAction::SendMessage(
                Message::assistant_text(line.clone()),
            ),
            Stage::SendUsage { usage } => GenerateAction::SendUsage(
                ProviderUsage { model: self.model_name.clone(), usage: *usage },
            ),
            Stage::Done => GenerateAction::Finish(Ok(())),
            Stage::Failed { error } => GenerateAction::Finish(Err(error.duplicate())),
        }
    }

    /// Whether the token counts of the generation add up within an `i32`.
    pub fn usage_fits(&self) -> (fits: bool)
        ensures
            fits == self@.usage_fits(),
    {
        let (input, output) = self.token_counts();
        input.checked_add(output).is_some()
    }

    fn token_counts(&self) -> (counts: (i32, i32))
        ensures
            counts == (approx_tokens(self@.prompt), approx_tokens(self@.collected)),
    {
        let input = count_words(self.prompt.as_str());
        let output = count_words(self.collected.as_str());
        (
            #[verifier::truncate]
            (input as i32),
            #[verifier::truncate]
            (output as i32),
        )
    }

    /// Takes in what came of the current action.
    pub fn answer(&mut self, event: GenerateEvent)
        requires
            old(self)@.stage is AwaitBoundary && event is BoundarySeen ==> old(self)@.usage_fits(),
        ensures
            final(self)@ == old(self)@.next(event),
    {
        match (&self.stage, event) {
            (Stage::CheckModel, GenerateEvent::ModelChecked { matches }) => if matches {
                self.stage = Stage::PollChild;
            } else {
                self.fail("larql backend: loaded-model type mismatch".to_owned());
            },
            (Stage::PollChild, GenerateEvent::ChildRunning) => {
                self.stage = Stage::Write;
            },
            (Stage::PollChild, GenerateEvent::ChildExited { status }) => {
                let mut text =
                    "larql backend: 'larql chat' child exited before generate() (status: ".to_owned();
                text.append(status.as_str());
                text.append(")");
                self.fail(text);
            },
            (Stage::Write, GenerateEvent::Written) => {
                self.stage = Stage::Flush;
            },
            (Stage::Write, GenerateEvent::WriteFailed { reason }) => {
                let mut text = "larql backend: failed to write stdin: ".to_owned();
                text.append(reason.as_str());
                self.fail(text);
            },
            (Stage::Flush, GenerateEvent::Flushed) => {
                self.stage = Stage::ReadClock;
            },
            (Stage::Flush, GenerateEvent::FlushFailed { reason }) => {
                let mut text = "larql backend: failed to flush stdin: ".to_owned();
                text.append(reason.as_str());
                self.fail(text);
            },
            (Stage::ReadClock, GenerateEvent::Clock { elapsed_secs }) => if elapsed_secs
                >= GENERATE_TIMEOUT_SECS {
                let mut text = "larql backend: generate() exceeded ".to_owned();
                text.append(decimal_string(GENERATE_TIMEOUT_SECS).as_str());
                text.append(
                    "s with no turn-boundary signal — treating as a fault, not 'still working' (see AC-5)",
                );
                self.fail(text);
            } else {
                self.stage = Stage::AwaitBoundary;
            },
            (Stage::AwaitBoundary, GenerateEvent::BoundarySeen) => {
                let (input, output) = self.token_counts();
                let usage = Usage {
                    input_tokens: Some(input),
                    output_tokens: Some(output),
                    total_tokens: Some(input + output),
                };
                self.stage = Stage::SendUsage { usage };
            },
            (Stage::AwaitBoundary, GenerateEvent::BoundaryNotSeen) => {
                self.stage = Stage::ReadLine;
            },
            (Stage::ReadLine, GenerateEvent::LineRead { line }) => {
                self.collected.append(line.as_str());
                self.stage = Stage::SendLine { line };
            },
            (Stage::ReadLine, GenerateEvent::NothingRead) => {
                self.stage = Stage::ReadClock;
            },
            (Stage::ReadLine, GenerateEvent::OutputClosed) => {
                self.fail(
                    "larql backend: child stdout closed before a turn-boundary signal (the 'larql chat' process likely crashed mid-generation)".to_owned(),
                );
            },
            (Stage::SendLine { line: _ }, GenerateEvent::Sent) => {
                self.stage = Stage::ReadClock;
            },
            (Stage::SendUsage { usage: _ }, GenerateEvent::Sent) => {
                self.stage = Stage::Done;
            },
            _ => {},
        }
    }

    fn fail(&mut self, text: String)
        ensures
            final(self)@ == old(self)@.failed(text@),
    {
        self.stage = Stage::Failed { error: ProviderError::ExecutionError(text) };
    }
}

// ---------------------------------------------------------------------------
// What holds of every generation
// ---------------------------------------------------------------------------

impl GenerationView {
    /// Whether nothing more is to be done.
    pub open spec fn is_settled(self) -> bool {
        self.stage is Done || self.stage is Failed
    }

    /// Whether the prompt has been handed over and the answer is awaited.
    pub open spec fn is_listening(self) -> bool {
        self.stage is ReadClock || self.stage is AwaitBoundary || self.stage is ReadLine
            || self.stage is SendLine
    }

    /// Whether `event` answers the current action.
    pub open spec fn is_answer(self, event: GenerateEvent) -> bool {
        match self.stage {
            StageView::CheckModel => event is ModelChecked,
            StageView::PollChild => event is ChildRunning || event is ChildExited,
            StageView::Write => event is Written || event is WriteFailed,
            StageView::Flush => event is Flushed || event is FlushFailed,
            StageView::ReadClock => event is Clock,
            StageView::AwaitBoundary => event is BoundarySeen || event is BoundaryNotSeen,
            StageView::ReadLine => event is LineRead || event is NothingRead || event is OutputClosed,
            StageView::SendLine { line } => event is Sent,
            StageView::SendUsage { usage } => event is Sent,
            StageView::Done => false,
            StageView::Failed { error } => false,
        }
    }

    /// The state after `events`.
    pub open spec fn run(self, events: Seq<GenerateEvent>) -> GenerationView
        decreases events.len(),
    {
        if events.len() == 0 {
            self
        } else {
            self.run(events.drop_last()).next(events.last())
        }
    }

    /// The texts of the messages that `events` make the generation pass on, in order.
    pub open spec fn sent_lines(self, events: Seq<GenerateEvent>) -> Seq<Seq<char>>
        decreases events.len(),
    {
        if events.len() == 0 {
            Seq::empty()
        } else {
            let before = self.run(events.drop_last());
            let after = before.next(events.last());
            let lines = self.sent_lines(events.drop_last());
            match after.action() {
                GenerateActionView::SendMessage(message) => if before.stage is SendLine {
                    lines
                } else {
                    lines.push(message.content[0]->Text_0)
                },
                _ => lines,
            }
        }
    }
}

impl GenerationView {
    /// The lines that `events` hand to the generation where it is reading, in order.
    pub open spec fn read_lines(self, events: Seq<GenerateEvent>) -> Seq<Seq<char>>
        decreases events.len(),
    {
        if events.len() == 0 {
            Seq::empty()
        } else {
            let lines = self.read_lines(events.drop_last());
            match events.last() {
                GenerateEvent::LineRead { line } => if self.run(events.drop_last()).stage
                    is ReadLine {
                    lines.push(line@)
                } else {
                    lines
                },
                _ => lines,
            }
        }
    }

    /// The usages that `events` make the generation pass on, in order.
    pub open spec fn sent_usages(self, events: Seq<GenerateEvent>) -> Seq<Usage>
        decreases events.len(),
    {
        if events.len() == 0 {
            Seq::empty()
        } else {
            let before = self.run(events.drop_last());
            let usages = self.sent_usages(events.drop_last());
            match before.next(events.last()).action() {
                GenerateActionView::SendUsage { model, usage } => if before.stage is SendUsage {
                    usages
                } else {
                    usages.push(usage)
                },
                _ => usages,
            }
        }
    }
}

/// Texts one after the other.
pub open spec fn concatenated(list: Seq<Seq<char>>) -> Seq<char>
    decreases list.len(),
{
    if list.len() == 0 {
        Seq::empty()
    } else {
        concatenated(list.drop_last()) + list.last()
    }
}

/// The words of several texts, counted one text at a time.
pub open spec fn total_words(list: Seq<Seq<char>>) -> nat
    decreases list.len(),
{
    if list.len() == 0 {
        0
    } else {
        total_words(list.drop_last()) + word_count(list.last())
    }
}

/// An event that does not answer the current action changes nothing.
pub proof fn stray_events_change_nothing(generation: GenerationView, event: GenerateEvent)
    requires
        !generation.is_answer(event),
    ensures
        generation.next(event) == generation,
{
}

/// A generation that has succeeded or failed stays so, whatever is reported afterwards.
pub proof fn settled_generations_stay_settled(
    generation: GenerationView,
    events: Seq<GenerateEvent>,
)
    requires
        generation.is_settled(),
    ensures
        generation.run(events) == generation,
    decreases events.len(),
{
    if events.len() > 0 {
        settled_generations_stay_settled(generation, events.drop_last());
    }
}

/// Every line that was read is passed on, once, unchanged and in order, and nothing else is.
pub proof fn every_line_read_is_sent(generation: GenerationView, events: Seq<GenerateEvent>)
    ensures
        generation.sent_lines(events) == generation.read_lines(events),
    decreases events.len(),
{
    if events.len() > 0 {
        let earlier = events.drop_last();
        every_line_read_is_sent(generation, earlier);
        let before = generation.run(earlier);
        let after = before.next(events.last());
        if after.stage is SendLine && !(before.stage is SendLine) {
            let line = after.stage->line;
            assert(assistant_says(ContentView::Text(line)).content[0] == ContentView::Text(line));
        }
    }
}

/// A generation that succeeds has passed on its usage exactly once, after everything it read; one
/// that fails has passed on none.
pub proof fn usage_is_sent_once_on_success(generation: GenerationView, events: Seq<GenerateEvent>)
    requires
        generation.stage is CheckModel,
    ensures
        generation.run(events).stage is Done ==> generation.sent_usages(events) == seq![
            generation.run(events).usage(),
        ],
        generation.run(events).stage is Failed ==> generation.sent_usages(events).len() == 0,
{
    lemma_usages_so_far(generation, events);
}

proof fn lemma_usages_so_far(generation: GenerationView, events: Seq<GenerateEvent>)
    requires
        generation.stage is CheckModel,
    ensures
        ({
            let now = generation.run(events);
            generation.sent_usages(events) == if now.stage is SendUsage || now.stage is Done {
                seq![now.usage()]
            } else {
                Seq::empty()
            }
        }),
    decreases events.len(),
{
    if events.len() > 0 {
        let earlier = events.drop_last();
        lemma_usages_so_far(generation, earlier);
        lemma_usage_is_current(generation, earlier);
        lemma_usage_is_current(generation, events);
        let usage = generation.run(events).usage();
        assert(Seq::<Usage>::empty().push(usage) =~= seq![usage]);
    }
}

/// What was collected is what was passed on, line by line and in order.
pub proof fn collected_is_what_was_sent(generation: GenerationView, events: Seq<GenerateEvent>)
    ensures
        generation.run(events).collected == generation.collected + concatenated(
            generation.sent_lines(events),
        ),
    decreases events.len(),
{
    if events.len() == 0 {
        assert(generation.collected + Seq::<char>::empty() =~= generation.collected);
    } else {
        let earlier = events.drop_last();
        collected_is_what_was_sent(generation, earlier);
        let before = generation.run(earlier);
        let lines = generation.sent_lines(earlier);
        let after = before.next(events.last());
        if after.stage is SendLine && !(before.stage is SendLine) {
            let line = after.stage->line;
            assert(assistant_says(ContentView::Text(line)).content[0] == ContentView::Text(line));
            assert(generation.sent_lines(events) == lines.push(line));
            assert(lines.push(line).drop_last() =~= lines);
            assert(generation.collected + (concatenated(lines) + line) =~= (generation.collected
                + concatenated(lines)) + line);
        }
    }
}

/// The usage that is passed on counts the words of the prompt and of all lines that were passed
/// on before.
pub proof fn usage_counts_what_was_sent(generation: GenerationView, events: Seq<GenerateEvent>)
    requires
        generation.stage is CheckModel,
        generation.collected == Seq::<char>::empty(),
        generation.run(events).stage is SendUsage,
    ensures
        generation.run(events).stage->usage == generation.run(events).usage(),
        generation.run(events).prompt == generation.prompt,
        generation.run(events).collected == concatenated(generation.sent_lines(events)),
{
    collected_is_what_was_sent(generation, events);
    assert(generation.collected + concatenated(generation.sent_lines(events)) =~= concatenated(
        generation.sent_lines(events),
    ));
    lemma_usage_is_current(generation, events);
}

proof fn lemma_usage_is_current(generation: GenerationView, events: Seq<GenerateEvent>)
    requires
        !(generation.stage is SendUsage),
    ensures
        generation.run(events).prompt == generation.prompt,
        generation.run(events).model_name == generation.model_name,
        generation.run(events).stage is SendUsage ==> generation.run(events).stage->usage
            == generation.run(events).usage(),
    decreases events.len(),
{
    if events.len() > 0 {
        lemma_usage_is_current(generation, events.drop_last());
    }
}

/// Where every line but the last ends in white space, as lines do that end in a line feed, the
/// words of the whole are those of the lines.
pub proof fn words_are_counted_line_by_line(lines: Seq<Seq<char>>)
    requires
        forall|i: int|
            0 <= i < lines.len() - 1 ==> lines[i].len() > 0 && is_white_space(
                (#[trigger] lines[i]).last(),
            ),
    ensures
        word_count(concatenated(lines)) == total_words(lines),
    decreases lines.len(),
{
    if lines.len() > 0 {
        let init = lines.drop_last();
        assert forall|i: int| 0 <= i < init.len() - 1 implies init[i].len() > 0 && is_white_space(
            (#[trigger] init[i]).last(),
        ) by {
            assert(init[i] == lines[i]);
        }
        words_are_counted_line_by_line(init);
        if init.len() > 0 {
            let tail = lines[lines.len() - 2];
            assert(init.last() == tail);
            assert(concatenated(init).last() == tail.last());
        }
        words_do_not_cross_white_space(concatenated(init), lines.last());
    }
}

/// A generation that is past its time limit ends: once every look at the clock shows that the time
/// is up, four answers bring it to its end or to its usage report.
pub proof fn overdue_generations_end(generation: GenerationView, events: Seq<GenerateEvent>)
    requires
        generation.is_listening(),
        events.len() == 4,
        forall|i: int|
            0 <= i < events.len() ==> {
                let now = #[trigger] generation.run(events.take(i));
                &&& !now.is_settled() && !(now.stage is SendUsage) ==> now.is_answer(events[i])
                &&& events[i] is Clock ==> events[i]->elapsed_secs >= GENERATE_TIMEOUT_SECS
            },
    ensures
        generation.run(events).is_settled() || generation.run(events).stage is SendUsage,
{
    assert(events.take(0) =~= Seq::empty());
    assert(events.take(1).drop_last() =~= events.take(0));
    assert(events.take(2).drop_last() =~= events.take(1));
    assert(events.take(3).drop_last() =~= events.take(2));
    assert(events.drop_last() =~= events.take(3));
    let first = generation.run(events.take(0));
    let second = generation.run(events.take(1));
    let third = generation.run(events.take(2));
    let fourth = generation.run(events.take(3));
    assert(second == first.next(events[0]));
    assert(third == second.next(events[1]));
    assert(fourth == third.next(events[2]));
}

/// A child that has already exited is never written to: the generation fails at once, for good.
pub proof fn exited_children_are_not_written_to(
    generation: GenerationView,
    exit: GenerateEvent,
    events: Seq<GenerateEvent>,
)
    requires
        generation.stage is PollChild,
        exit is ChildExited,
    ensures
        generation.next(exit).stage is Failed,
        generation.next(exit).run(events) == generation.next(exit),
{
    settled_generations_stay_settled(generation.next(exit), events);
}

/// An answer that is cut off is a fault: success needs the turn prompt.
pub proof fn no_boundary_no_success(generation: GenerationView, events: Seq<GenerateEvent>)
    requires
        !(generation.stage is SendUsage),
        !(generation.stage is Done),
        forall|i: int| 0 <= i < events.len() ==> !(#[trigger] events[i] is BoundarySeen),
    ensures
        !(generation.run(events).stage is SendUsage),
        !(generation.run(events).stage is Done),
    decreases events.len(),
{
    if events.len() > 0 {
        let earlier = events.drop_last();
        assert(!(events[events.len() - 1] is BoundarySeen));
        assert forall|i: int| 0 <= i < earlier.len() implies !(#[trigger] earlier[i]
            is BoundarySeen) by {
            assert(earlier[i] == events[i]);
        }
        no_boundary_no_success(generation, earlier);
    }
}

// ---------------------------------------------------------------------------
// What a generation asks for, reports, and fails with
// ---------------------------------------------------------------------------

/// What a generation asks for is said in full.
pub proof fn generate_actions_say_all_they_hold(action: GenerateAction)
    ensures
        match action {
            GenerateAction::CheckModel => action@ is CheckModel,
            GenerateAction::PollChild => action@ is PollChild,
            GenerateAction::WriteLine(line) => action@ == GenerateActionView::WriteLine(line@),
            GenerateAction::Flush => action@ is Flush,
            GenerateAction::ReadClock => action@ is ReadClock,
            GenerateAction::AwaitBoundary { millis } => action@
                == (GenerateActionView::AwaitBoundary { millis }),
            GenerateAction::ReadLine { millis } => action@ == (GenerateActionView::ReadLine {
                millis,
            }),
            GenerateAction::SendMessage(message) => action@ == GenerateActionView::SendMessage(
                message@,
            ),
            GenerateAction::SendUsage(usage) => action@ == (GenerateActionView::SendUsage {
                model: usage.model@,
                usage: usage.usage,
            }),
            GenerateAction::Finish(Ok(_)) => action@ == GenerateActionView::Finish(Ok(())),
            GenerateAction::Finish(Err(error)) => action@ == GenerateActionView::Finish(
                Err(error@),
            ),
        },
{
}

/// The usage that a turn reports counts words: those of the prompt, and those of the lines that
/// were passed on, and it is reported under the name of the model.
pub proof fn usage_counts_words(generation: GenerationView, events: Seq<GenerateEvent>)
    requires
        generation.stage is CheckModel,
        generation.collected == Seq::<char>::empty(),
        ({
            let lines = generation.sent_lines(events);
            &&& forall|i: int|
                0 <= i < lines.len() - 1 ==> lines[i].len() > 0 && is_white_space(
                    (#[trigger] lines[i]).last(),
                )
            &&& word_count(generation.prompt) + total_words(lines) <= i32::MAX
        }),
    ensures
        generation.run(events).action() matches GenerateActionView::SendUsage { model, usage } ==> {
            let input = word_count(generation.prompt);
            let output = total_words(generation.sent_lines(events));
            &&& model == generation.model_name
            &&& usage.input_tokens matches Some(tokens) && tokens == input
            &&& usage.output_tokens matches Some(tokens) && tokens == output
            &&& usage.total_tokens matches Some(tokens) && tokens == input + output
        },
{
    lemma_usage_is_current(generation, events);
    if generation.run(events).stage is SendUsage {
        usage_counts_what_was_sent(generation, events);
        words_are_counted_line_by_line(generation.sent_lines(events));
    }
}

/// The usage of any state counts the words of its prompt and of what it has collected, as long as
/// the counts fit.
pub proof fn usage_is_in_words(generation: GenerationView)
    requires
        word_count(generation.prompt) + word_count(generation.collected) <= i32::MAX,
    ensures
        generation.usage_fits(),
        generation.usage().input_tokens matches Some(tokens) && tokens == word_count(
            generation.prompt,
        ),
        generation.usage().output_tokens matches Some(tokens) && tokens == word_count(
            generation.collected,
        ),
        generation.usage().total_tokens matches Some(tokens) && tokens == word_count(
            generation.prompt,
        ) + word_count(generation.collected),
{
}

/// The words of no text, and of texts one after the other, as they are counted one by one.
pub proof fn total_words_are_those_of_each_text(text: Seq<char>, list: Seq<Seq<char>>)
    ensures
        total_words(Seq::empty()) == 0,
        total_words(list.push(text)) == total_words(list) + word_count(text),
{
    assert(list.push(text).drop_last() =~= list);
}

/// Whatever happens, what is written to the child is the prompt, whole, what is awaited is awaited
/// for 50 milliseconds, and what is passed on is text of the assistant.
pub proof fn generations_ask_for_the_same(generation: GenerationView, events: Seq<GenerateEvent>)
    requires
        generation.stage is CheckModel,
    ensures
        match generation.run(events).action() {
            GenerateActionView::WriteLine(line) => line == generation.prompt,
            GenerateActionView::AwaitBoundary { millis } => millis == 50,
            GenerateActionView::ReadLine { millis } => millis == 50,
            GenerateActionView::SendMessage(message) => {
                &&& message.role == Role::Assistant
                &&& message.content.len() == 1
                &&& message.content[0] is Text
            },
            GenerateActionView::SendUsage { model, usage } => model == generation.model_name,
            _ => true,
        },
{
    lemma_usage_is_current(generation, events);
}

/// A turn that meets no obstacle: the model and the child are checked, the prompt is written and
/// flushed, and the clock is looked at.
pub proof fn turns_begin_step_by_step(generation: GenerationView)
    requires
        generation.stage is CheckModel,
    ensures
        ({
            let matched = generation.next(GenerateEvent::ModelChecked { matches: true });
            let running = matched.next(GenerateEvent::ChildRunning);
            let written = running.next(GenerateEvent::Written);
            let flushed = written.next(GenerateEvent::Flushed);
            &&& generation.action() is CheckModel
            &&& matched.action() is PollChild
            &&& running.action() == GenerateActionView::WriteLine(generation.prompt)
            &&& written.action() is Flush
            &&& flushed.action() is ReadClock
            &&& flushed.collected == generation.collected
        }),
{
}

/// While the answer is awaited: in time, the turn prompt is awaited; without it, a line is read; a
/// line that is read is collected and passed on unchanged; and the clock is looked at again.
pub proof fn answers_are_read_line_by_line(
    generation: GenerationView,
    line: String,
    elapsed_secs: u64,
)
    requires
        generation.stage is ReadClock,
        elapsed_secs < 120,
    ensures
        ({
            let waiting = generation.next(GenerateEvent::Clock { elapsed_secs });
            let reading = waiting.next(GenerateEvent::BoundaryNotSeen);
            let sending = reading.next(GenerateEvent::LineRead { line });
            let sent = sending.next(GenerateEvent::Sent);
            &&& waiting.action() is AwaitBoundary
            &&& reading.action() is ReadLine
            &&& sending.collected == generation.collected + line@
            &&& sending.action() matches GenerateActionView::SendMessage(message) && message.role
                == Role::Assistant && message.content == seq![ContentView::Text(line@)]
            &&& sent.action() is ReadClock
            &&& sent.collected == sending.collected
            &&& reading.next(GenerateEvent::NothingRead) == generation
        }),
{
}

/// When the turn prompt is seen the usage is passed on, and then the turn has succeeded.
pub proof fn turns_end_with_the_usage(generation: GenerationView)
    requires
        generation.stage is AwaitBoundary,
    ensures
        ({
            let complete = generation.next(GenerateEvent::BoundarySeen);
            let done = complete.next(GenerateEvent::Sent);
            &&& complete.action() is SendUsage
            &&& complete.collected == generation.collected
            &&& done.action() == GenerateActionView::Finish(Ok(()))
        }),
{
}

/// Every obstacle ends the turn with an error that names it, and so does the time limit of 120
/// seconds.
pub proof fn turns_fail_with_their_reason(
    generation: GenerationView,
    reason: String,
    elapsed_secs: u64,
)
    ensures
        generation.stage is CheckModel ==> generation.next(
            GenerateEvent::ModelChecked { matches: false },
        ).action() == GenerateActionView::Finish(
            Err("larql backend: loaded-model type mismatch"@),
        ),
        generation.stage is PollChild ==> generation.next(
            GenerateEvent::ChildExited { status: reason },
        ).action() == GenerateActionView::Finish(
            Err(
                "larql backend: 'larql chat' child exited before generate() (status: "@ + reason@
                    + ")"@,
            ),
        ),
        generation.stage is Write ==> generation.next(
            GenerateEvent::WriteFailed { reason },
        ).action() == GenerateActionView::Finish(
            Err("larql backend: failed to write stdin: "@ + reason@),
        ),
        generation.stage is Flush ==> generation.next(
            GenerateEvent::FlushFailed { reason },
        ).action() == GenerateActionView::Finish(
            Err("larql backend: failed to flush stdin: "@ + reason@),
        ),
        generation.stage is ReadClock && elapsed_secs >= 120 ==> generation.next(
            GenerateEvent::Clock { elapsed_secs },
        ).action() == GenerateActionView::Finish(
            Err(
                "larql backend: generate() exceeded "@ + decimal(120)
                    + "s with no turn-boundary signal — treating as a fault, not 'still working' (see AC-5)"@,
            ),
        ),
        generation.stage is ReadLine ==> generation.next(GenerateEvent::OutputClosed).action()
            == GenerateActionView::Finish(
            Err(
                "larql backend: child stdout closed before a turn-boundary signal (the 'larql chat' process likely crashed mid-generation)"@,
            ),
        ),
{
}

/// A turn that succeeds has passed on one usage, and it counts words: those of the prompt, and those
/// of the lines that were passed on.
pub proof fn successful_turns_report_words(generation: GenerationView, events: Seq<GenerateEvent>)
    requires
        generation.stage is CheckModel,
        generation.collected == Seq::<char>::empty(),
        generation.run(events).stage is Done,
        ({
            let lines = generation.sent_lines(events);
            &&& forall|i: int|
                0 <= i < lines.len() - 1 ==> lines[i].len() > 0 && is_white_space(
                    (#[trigger] lines[i]).last(),
                )
            &&& word_count(generation.prompt) + total_words(lines) <= i32::MAX
        }),
    ensures
        ({
            let usages = generation.sent_usages(events);
            let input = word_count(generation.prompt);
            let output = total_words(generation.sent_lines(events));
            &&& usages.len() == 1
            &&& usages[0].input_tokens matches Some(tokens) && tokens == input
            &&& usages[0].output_tokens matches Some(tokens) && tokens == output
            &&& usages[0].total_tokens matches Some(tokens) && tokens == input + output
        }),
{
    let lines = generation.sent_lines(events);
    usage_is_sent_once_on_success(generation, events);
    lemma_usage_is_current(generation, events);
    collected_is_what_was_sent(generation, events);
    assert(generation.collected + concatenated(lines) =~= concatenated(lines));
    words_are_counted_line_by_line(lines);
    usage_is_in_words(generation.run(events));
}

} // verus!
