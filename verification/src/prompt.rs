//! The one-line prompt that stands for a whole conversation.
//!
//! `larql chat` reads one line per turn, so system text and messages are flattened into a single
//! line: line feeds become spaces, and the parts are set apart by `" | "`.
use crate::message::Role;
use crate::text::{
    blank, is_blank, is_single_line, is_white_space, join, joined, joining_two_runs, one_line,
    texts, to_one_line,
};
use vstd::prelude::*;
use vstd::string::StringExecFns;

verus! {

/// A message of the conversation, each piece of its content already rendered as text.
pub struct ChatMessage {
    pub role: Role,
    pub content: Vec<String>,
}

/// How a role is named in the prompt.
pub open spec fn role_name(role: Role) -> Seq<char> {
    match role {
        Role::User => "User"@,
        Role::Assistant => "Assistant"@,
    }
}

impl ChatMessage {
    /// What the message says: its pieces, set apart by spaces.
    pub open spec fn text(self) -> Seq<char> {
        joined(texts(self.content@), " "@)
    }

    /// Whether none of its pieces has visible text.
    pub open spec fn is_silent(self) -> bool {
        forall|i: int| 0 <= i < self.content@.len() ==> is_blank(#[trigger] self.content@[i]@)
    }

    /// The part of the prompt that the message makes.
    pub open spec fn part(self) -> Seq<char> {
        role_name(self.role) + (": "@ + one_line(self.text()))
    }
}

/// The parts that `messages` make, in order. A message without visible text makes none.
pub open spec fn message_parts(messages: Seq<ChatMessage>) -> Seq<Seq<char>>
    decreases messages.len(),
{
    if messages.len() == 0 {
        Seq::empty()
    } else if is_blank(messages.last().text()) {
        message_parts(messages.drop_last())
    } else {
        message_parts(messages.drop_last()).push(messages.last().part())
    }
}

/// The parts of the prompt: the system text, unless it is empty, then the messages.
pub open spec fn prompt_parts(system: Seq<char>, messages: Seq<ChatMessage>) -> Seq<Seq<char>> {
    (if system.len() == 0 { Seq::empty() } else { seq![one_line(system)] }) + message_parts(
        messages,
    )
}

/// The prompt for a conversation.
pub open spec fn prompt(system: Seq<char>, messages: Seq<ChatMessage>) -> Seq<char> {
    joined(prompt_parts(system, messages), " | "@)
}

/// Collapses a conversation into one line.
pub fn flatten_prompt(system: &str, messages: &[ChatMessage]) -> (line: String)
    ensures
        line@ == prompt(system@, messages@),
        is_single_line(line@),
{
    let mut parts: Vec<String> = Vec::new();
    if !system.is_empty() {
        parts.push(to_one_line(system));
    }
    let ghost head = texts(parts@);
    assert(head =~= prompt_parts(system@, Seq::empty()));
    for i in 0..messages.len()
        invariant
            texts(parts@) == head + message_parts(messages@.take(i as int)),
    {
        let message = &messages[i];
        let ghost before = texts(parts@);
        proof {
            let more = messages@.take(i + 1);
            assert(more.drop_last() =~= messages@.take(i as int));
            assert(more.last() == *message);
        }
        let text = join(&message.content, " ");
        if !blank(text.as_str()) {
            let mut part = match message.role {
                Role::User => "User".to_owned(),
                Role::Assistant => "Assistant".to_owned(),
            };
            part.append(": ");
            part.append(to_one_line(text.as_str()).as_str());
            assert(part@ =~= message.part());
            parts.push(part);
            assert(texts(parts@) =~= before.push(message.part()));
        }
        assert(texts(parts@) =~= head + message_parts(messages@.take(i + 1)));
    }
    proof {
        assert(messages@.take(messages@.len() as int) =~= messages@);
        assert(texts(parts@) =~= prompt_parts(system@, messages@));
        prompt_is_one_line(system@, messages@);
    }
    join(&parts, " | ")
}

/// However many lines a conversation has, its prompt is a single line.
pub proof fn prompt_is_one_line(system: Seq<char>, messages: Seq<ChatMessage>)
    ensures
        is_single_line(prompt(system, messages)),
{
    reveal_strlit(" | ");
    lemma_message_parts_single_line(messages);
    let parts = prompt_parts(system, messages);
    assert forall|i: int| 0 <= i < parts.len() implies is_single_line(#[trigger] parts[i]) by {
        let head = parts.len() - message_parts(messages).len();
        if i >= head {
            assert(parts[i] == message_parts(messages)[i - head]);
        }
    }
    lemma_joined_single_line(parts, " | "@);
}

proof fn lemma_message_parts_single_line(messages: Seq<ChatMessage>)
    ensures
        forall|i: int|
            0 <= i < message_parts(messages).len() ==> is_single_line(
                #[trigger] message_parts(messages)[i],
            ),
    decreases messages.len(),
{
    if messages.len() > 0 {
        lemma_message_parts_single_line(messages.drop_last());
        reveal_strlit("User");
        reveal_strlit("Assistant");
        reveal_strlit(": ");
        let name = role_name(messages.last().role);
        let rest = one_line(messages.last().text());
        assert(is_single_line(name));
        assert(is_single_line(": "@ + rest));
        assert(is_single_line(messages.last().part()));
        let parts = message_parts(messages);
        let earlier = message_parts(messages.drop_last());
        assert forall|i: int| 0 <= i < parts.len() implies is_single_line(#[trigger] parts[i]) by {
            if i < earlier.len() {
                assert(parts[i] == earlier[i]);
            }
        }
    }
}

proof fn lemma_joined_single_line(parts: Seq<Seq<char>>, sep: Seq<char>)
    requires
        forall|i: int| 0 <= i < parts.len() ==> is_single_line(#[trigger] parts[i]),
        is_single_line(sep),
    ensures
        is_single_line(joined(parts, sep)),
    decreases parts.len(),
{
    if parts.len() > 1 {
        assert forall|i: int| 0 <= i < parts.drop_last().len() implies is_single_line(
            #[trigger] parts.drop_last()[i],
        ) by {
            assert(parts.drop_last()[i] == parts[i]);
        }
        lemma_joined_single_line(parts.drop_last(), sep);
        assert(is_single_line(parts[parts.len() - 1]));
    } else if parts.len() == 1 {
        assert(is_single_line(parts[0]));
    }
}

/// Messages without visible text leave no trace: a prompt does not change where one is put in or
/// taken out.
pub proof fn blank_messages_leave_no_trace(
    system: Seq<char>,
    before: Seq<ChatMessage>,
    silent: ChatMessage,
    after: Seq<ChatMessage>,
)
    requires
        is_blank(silent.text()),
    ensures
        prompt(system, before.push(silent) + after) == prompt(system, before + after),
{
    lemma_message_parts_concat(before.push(silent), after);
    lemma_message_parts_concat(before, after);
    assert(before.push(silent).drop_last() =~= before);
}

/// The parts of two runs of messages are those of the first, then those of the second.
proof fn lemma_message_parts_concat(first: Seq<ChatMessage>, second: Seq<ChatMessage>)
    ensures
        message_parts(first + second) == message_parts(first) + message_parts(second),
    decreases second.len(),
{
    if second.len() == 0 {
        assert(first + second =~= first);
        assert(message_parts(first) + message_parts(second) =~= message_parts(first));
    } else {
        lemma_message_parts_concat(first, second.drop_last());
        assert((first + second).drop_last() =~= first + second.drop_last());
        let part = second.last().part();
        assert(message_parts(first) + message_parts(second.drop_last()).push(part) =~= (
        message_parts(first) + message_parts(second.drop_last())).push(part));
    }
}

/// A message has visible text exactly where one of its pieces has.
pub proof fn silent_messages_say_nothing(message: ChatMessage)
    ensures
        message.is_silent() <==> is_blank(message.text()),
{
    reveal_strlit(" ");
    let pieces = texts(message.content@);
    lemma_joined_blank(pieces, " "@);
    assert(message.is_silent() <==> forall|i: int|
        0 <= i < pieces.len() ==> is_blank(#[trigger] pieces[i])) by {
        assert forall|i: int| 0 <= i < pieces.len() implies #[trigger] pieces[i]
            == message.content@[i]@ by {}
        if message.is_silent() {
            assert forall|i: int| 0 <= i < pieces.len() implies is_blank(#[trigger] pieces[i]) by {
                assert(is_blank(message.content@[i]@));
            }
        }
        if forall|i: int| 0 <= i < pieces.len() ==> is_blank(#[trigger] pieces[i]) {
            assert forall|i: int| 0 <= i < message.content@.len() implies is_blank(
                #[trigger] message.content@[i]@,
            ) by {
                assert(is_blank(pieces[i]));
            }
        }
    }
}

/// Texts joined by white space are blank exactly where each of them is.
proof fn lemma_joined_blank(parts: Seq<Seq<char>>, sep: Seq<char>)
    requires
        is_blank(sep),
    ensures
        is_blank(joined(parts, sep)) <==> forall|i: int|
            0 <= i < parts.len() ==> is_blank(#[trigger] parts[i]),
    decreases parts.len(),
{
    if parts.len() == 1 {
        assert(joined(parts, sep) == parts[0]);
    } else if parts.len() > 1 {
        let init = parts.drop_last();
        let last = parts[parts.len() - 1];
        let whole = joined(parts, sep);
        lemma_joined_blank(init, sep);
        lemma_blank_concat(joined(init, sep), sep + last);
        lemma_blank_concat(sep, last);
        assert forall|i: int| 0 <= i < init.len() implies #[trigger] init[i] == parts[i] by {}
        if is_blank(whole) {
            assert forall|i: int| 0 <= i < parts.len() implies is_blank(#[trigger] parts[i]) by {
                if i < init.len() {
                    assert(is_blank(init[i]));
                }
            }
        }
        if forall|i: int| 0 <= i < parts.len() ==> is_blank(#[trigger] parts[i]) {
            assert forall|i: int| 0 <= i < init.len() implies is_blank(#[trigger] init[i]) by {
                assert(is_blank(parts[i]));
            }
            assert(is_blank(last));
        }
    }
}

proof fn lemma_blank_concat(a: Seq<char>, b: Seq<char>)
    ensures
        is_blank(a + b) <==> is_blank(a) && is_blank(b),
{
    if is_blank(a + b) {
        assert forall|i: int| 0 <= i < a.len() implies is_white_space(#[trigger] a[i]) by {
            assert((a + b)[i] == a[i]);
        }
        assert forall|i: int| 0 <= i < b.len() implies is_white_space(#[trigger] b[i]) by {
            assert((a + b)[i + a.len()] == b[i]);
        }
    }
}

/// The messages that have visible text.
pub open spec fn audible(messages: Seq<ChatMessage>) -> Seq<ChatMessage> {
    messages.filter(|message: ChatMessage| !message.is_silent())
}

/// All messages without visible text may be left out at once, and the prompt is empty exactly
/// where there is no system text and no message with visible text.
pub proof fn only_visible_text_is_prompted(system: Seq<char>, messages: Seq<ChatMessage>)
    ensures
        prompt(system, messages) == prompt(system, audible(messages)),
        prompt(system, messages).len() == 0 <==> system.len() == 0 && audible(messages).len() == 0,
{
    lemma_audible_parts(messages);
    lemma_prompt_parts_visible(system, messages);
    lemma_joined_empty(prompt_parts(system, messages), " | "@);
}

/// Silent messages make no parts, and every other message makes one.
proof fn lemma_audible_parts(messages: Seq<ChatMessage>)
    ensures
        message_parts(messages) == message_parts(audible(messages)),
        message_parts(messages).len() == audible(messages).len(),
    decreases messages.len(),
{
    reveal(Seq::filter);
    if messages.len() > 0 {
        let last = messages.last();
        let earlier = messages.drop_last();
        lemma_audible_parts(earlier);
        silent_messages_say_nothing(last);
        if !last.is_silent() {
            assert(audible(messages) == audible(earlier).push(last));
            assert(audible(earlier).push(last).drop_last() =~= audible(earlier));
        } else {
            assert(audible(messages) == audible(earlier));
        }
    }
}

/// No part of a prompt is empty.
proof fn lemma_prompt_parts_visible(system: Seq<char>, messages: Seq<ChatMessage>)
    ensures
        forall|i: int|
            0 <= i < prompt_parts(system, messages).len() ==> (#[trigger] prompt_parts(
                system,
                messages,
            )[i]).len() > 0,
{
    lemma_message_parts_visible(messages);
    let parts = prompt_parts(system, messages);
    let head = parts.len() - message_parts(messages).len();
    assert forall|i: int| 0 <= i < parts.len() implies (#[trigger] parts[i]).len() > 0 by {
        if i >= head {
            assert(parts[i] == message_parts(messages)[i - head]);
        } else {
            assert(parts[i] == one_line(system));
        }
    }
}

proof fn lemma_message_parts_visible(messages: Seq<ChatMessage>)
    ensures
        forall|i: int|
            0 <= i < message_parts(messages).len() ==> (#[trigger] message_parts(
                messages,
            )[i]).len() > 0,
    decreases messages.len(),
{
    if messages.len() > 0 {
        lemma_message_parts_visible(messages.drop_last());
        reveal_strlit(": ");
        let parts = message_parts(messages);
        let earlier = message_parts(messages.drop_last());
        assert forall|i: int| 0 <= i < parts.len() implies (#[trigger] parts[i]).len() > 0 by {
            if i < earlier.len() {
                assert(parts[i] == earlier[i]);
            }
        }
    }
}

/// Texts that are not empty join to the empty text only where there are none.
proof fn lemma_joined_empty(parts: Seq<Seq<char>>, sep: Seq<char>)
    requires
        forall|i: int| 0 <= i < parts.len() ==> (#[trigger] parts[i]).len() > 0,
    ensures
        joined(parts, sep).len() == 0 <==> parts.len() == 0,
{
    if parts.len() > 0 {
        assert(parts[parts.len() - 1].len() > 0);
    }
}

/// Two prompts in one: set apart by `" | "`, unless one of them is empty.
pub open spec fn prompts_joined(first: Seq<char>, second: Seq<char>) -> Seq<char> {
    if first.len() == 0 {
        second
    } else if second.len() == 0 {
        first
    } else {
        first + " | "@ + second
    }
}

/// The prompt of two runs of messages is made of the prompts of each.
pub proof fn prompts_of_two_runs(
    system: Seq<char>,
    first: Seq<ChatMessage>,
    second: Seq<ChatMessage>,
)
    ensures
        prompt(system, first + second) == prompts_joined(
            prompt(system, first),
            prompt(Seq::empty(), second),
        ),
{
    let head = prompt_parts(system, first);
    let tail = prompt_parts(Seq::empty(), second);
    lemma_message_parts_concat(first, second);
    assert(tail =~= message_parts(second));
    assert(prompt_parts(system, first + second) =~= head + tail);
    lemma_prompt_parts_visible(system, first);
    lemma_prompt_parts_visible(Seq::empty(), second);
    lemma_joined_empty(head, " | "@);
    lemma_joined_empty(tail, " | "@);
    if head.len() == 0 {
        assert(head + tail =~= tail);
    } else if tail.len() == 0 {
        assert(head + tail =~= head);
    } else {
        joining_two_runs(head, tail, " | "@);
    }
}

// ---------------------------------------------------------------------------
// What a prompt holds of a conversation
// ---------------------------------------------------------------------------

/// What a message says: nothing without pieces, and a single piece as it is.
pub proof fn few_pieces_are_said_as_they_are(message: ChatMessage)
    ensures
        message.content@.len() == 0 ==> message.text() == Seq::<char>::empty(),
        message.content@.len() == 1 ==> message.text() == message.content@[0]@,
{
}

/// What a message says when its pieces are those of two others: what the one says, a space, and
/// what the other says.
pub proof fn pieces_are_said_in_order(message: ChatMessage, first: ChatMessage, second: ChatMessage)
    requires
        message.content@ == first.content@ + second.content@,
        first.content@.len() > 0,
        second.content@.len() > 0,
    ensures
        message.text() == first.text() + seq![' '] + second.text(),
{
    reveal_strlit(" ");
    assert(" "@ =~= seq![' ']);
    assert(texts(message.content@) =~= texts(first.content@) + texts(second.content@));
    joining_two_runs(texts(first.content@), texts(second.content@), " "@);
}

/// A message with a visible character is prompted whole: the name of its role, a colon and a space,
/// and then every character of its text at its place, with spaces for line feeds.
pub proof fn a_message_is_prompted_whole(message: ChatMessage, piece: int, at: int)
    requires
        0 <= piece < message.content@.len(),
        0 <= at < message.content@[piece]@.len(),
        !is_white_space(message.content@[piece]@[at]),
    ensures
        ({
            let line = prompt(Seq::empty(), seq![message]);
            let name = match message.role {
                Role::User => "User"@,
                Role::Assistant => "Assistant"@,
            };
            let text = message.text();
            let from = name.len() + 2;
            &&& line.len() == from + text.len()
            &&& line.take(name.len() as int) == name
            &&& line[name.len() as int] == ':'
            &&& line[name.len() as int + 1] == ' '
            &&& forall|i: int|
                0 <= i < text.len() ==> #[trigger] text[i] == line[from + i] || (text[i] == '\n'
                    && line[from + i] == ' ')
            &&& !line.contains('\n')
        }),
{
    silent_messages_say_nothing(message);
    assert(!is_blank(message.content@[piece]@));
    assert(!message.is_silent());
    reveal_strlit(": ");
    let messages = seq![message];
    assert(messages.drop_last() =~= Seq::empty());
    assert(message_parts(messages.drop_last()) =~= Seq::empty());
    let part = message.part();
    assert(prompt_parts(Seq::empty(), messages) =~= seq![part]);
    assert(prompt(Seq::empty(), messages) == part);
    let name = role_name(message.role);
    assert(part.take(name.len() as int) =~= name);
    assert forall|i: int| 0 <= i < message.text().len() implies #[trigger] message.text()[i]
        == part[name.len() + 2 + i] || (message.text()[i] == '\n' && part[name.len() + 2 + i]
        == ' ') by {
        assert(part[name.len() + 2 + i] == one_line(message.text())[i]);
    }
    prompt_is_one_line(Seq::empty(), messages);
}

/// A message without a visible character is not prompted at all.
pub proof fn an_invisible_message_is_not_prompted(message: ChatMessage)
    requires
        forall|piece: int, at: int|
            0 <= piece < message.content@.len() && 0 <= at < message.content@[piece]@.len()
                ==> is_white_space(#[trigger] message.content@[piece]@[at]),
    ensures
        prompt(Seq::empty(), seq![message]) == Seq::<char>::empty(),
{
    assert forall|i: int| 0 <= i < message.content@.len() implies is_blank(
        #[trigger] message.content@[i]@,
    ) by {}
    silent_messages_say_nothing(message);
    let messages = seq![message];
    assert(messages.drop_last() =~= Seq::empty());
    assert(message_parts(messages.drop_last()) =~= Seq::empty());
    assert(messages.last() == message);
    assert(message_parts(messages) =~= Seq::empty());
    assert(prompt_parts(Seq::empty(), messages) =~= Seq::empty());
}

/// Without messages the prompt is the system text, whole, with spaces for line feeds.
pub proof fn the_system_text_is_prompted_whole(system: Seq<char>)
    ensures
        ({
            let line = prompt(system, Seq::empty());
            &&& line.len() == system.len()
            &&& forall|i: int|
                0 <= i < system.len() ==> #[trigger] system[i] == line[i] || (system[i] == '\n'
                    && line[i] == ' ')
            &&& !line.contains('\n')
        }),
{
    let parts = prompt_parts(system, Seq::empty());
    if system.len() == 0 {
        assert(parts =~= Seq::empty());
    } else {
        assert(parts =~= seq![one_line(system)]);
        assert(prompt(system, Seq::empty()) == one_line(system));
    }
    prompt_is_one_line(system, Seq::empty());
}

/// The system text comes first. What the messages make follows behind `" | "`; where either of
/// them is missing, the other stands alone.
pub proof fn the_system_text_comes_first(system: Seq<char>, messages: Seq<ChatMessage>)
    ensures
        ({
            let head = prompt(system, Seq::empty());
            let tail = prompt(Seq::empty(), messages);
            &&& head.len() == 0 ==> prompt(system, messages) == tail
            &&& tail.len() == 0 ==> prompt(system, messages) == head
            &&& head.len() > 0 && tail.len() > 0 ==> prompt(system, messages) == head + seq![
                ' ',
                '|',
                ' ',
            ] + tail
        }),
{
    reveal_strlit(" | ");
    assert(" | "@ =~= seq![' ', '|', ' ']);
    prompts_of_two_runs(system, Seq::empty(), messages);
    assert(Seq::<ChatMessage>::empty() + messages =~= messages);
    let tail = prompt(Seq::empty(), messages);
    if tail.len() == 0 {
        assert(tail =~= Seq::empty());
    }
    if prompt(system, Seq::empty()).len() == 0 && tail.len() == 0 {
        assert(prompt(system, Seq::empty()) =~= tail);
    }
}

/// Messages are prompted in order, the later ones behind the earlier ones.
pub proof fn messages_are_prompted_in_order(first: Seq<ChatMessage>, second: Seq<ChatMessage>)
    ensures
        ({
            let head = prompt(Seq::empty(), first);
            let tail = prompt(Seq::empty(), second);
            let both = prompt(Seq::empty(), first + second);
            &&& head.len() == 0 ==> both == tail
            &&& tail.len() == 0 ==> both == head
            &&& head.len() > 0 && tail.len() > 0 ==> both == head + seq![' ', '|', ' '] + tail
        }),
{
    reveal_strlit(" | ");
    assert(" | "@ =~= seq![' ', '|', ' ']);
    prompts_of_two_runs(Seq::empty(), first, second);
    let head = prompt(Seq::empty(), first);
    let tail = prompt(Seq::empty(), second);
    if head.len() == 0 && tail.len() == 0 {
        assert(head =~= tail);
    }
}

} // verus!
