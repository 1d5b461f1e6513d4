//! Tool calls written as plain text in the answers of `larql chat`.
//!
//! The answer of a turn arrives whole, so the parser is fed complete lines and never has to hold
//! back half a pattern. Two conventions are understood:
//! - [`EmulatorConvention::ShellCommand`]: a line that starts with `$` is a shell command.
//! - [`EmulatorConvention::FencedJson`]: a ` ```tool_call ` ... ` ``` ` fenced block contains
//!   `{"name": "...", "arguments": {...}}`.
use crate::json::{
    json_document, json_node, json_object, json_string, object_clone, object_insert, object_members,
    object_new, object_reads_back, object_value, parse_document, string_reads_back, string_value,
    value_as_object, value_as_str, value_clone, value_get, JsonMembers, JsonNode,
};
use crate::message::{
    assistant_says, fresh_request_id, is_request_id, ContentView, Message, MessageView, Role,
    ToolCall,
};
use crate::text::{
    chars_of, is_blank, is_white_space, lemma_trim_end_parts, lemma_trim_start_parts, same_text,
    string_of, tight_text_is_not_trimmed, trim, trim_start, trimmed,
    trimming_empties_blank_text_only, trimming_leaves_the_core, trimming_undoes_padding,
};
use serde_json::Value;
use vstd::prelude::*;
use vstd::string::StringExecFns;

verus! {

/// The tool that runs shell commands.
pub const SHELL_TOOL: &'static str = "developer__shell";

/// Which textual convention the model was prompted to use for tool calls.
#[derive(Clone, Copy, PartialEq, Eq, Debug, Structural)]
pub enum EmulatorConvention {
    /// `$ command` on its own line.
    ShellCommand,
    /// ` ```tool_call\n{"name": "...", "arguments": {...}}\n``` ` fenced JSON.
    FencedJson,
}

/// What a line of the model's answer amounts to.
#[derive(Debug, PartialEq)]
pub enum EmulatedAction {
    Text(String),
    ShellCommand(String),
    ToolCallJson { name: String, arguments: Value },
}

/// What an [`EmulatedAction`] says.
pub enum ActionView {
    Text(Seq<char>),
    ShellCommand(Seq<char>),
    ToolCallJson { name: Seq<char>, arguments: Value },
}

impl View for EmulatedAction {
    type V = ActionView;

    open spec fn view(&self) -> ActionView {
        match self {
            EmulatedAction::Text(text) => ActionView::Text(text@),
            EmulatedAction::ShellCommand(command) => ActionView::ShellCommand(command@),
            EmulatedAction::ToolCallJson { name, arguments } => ActionView::ToolCallJson {
                name: name@,
                arguments: *arguments,
            },
        }
    }
}

/// What an optional action says.
pub open spec fn action_view(action: Option<EmulatedAction>) -> Option<ActionView> {
    match action {
        Some(action) => Some(action@),
        None => None,
    }
}

// ---------------------------------------------------------------------------
// The conventions
// ---------------------------------------------------------------------------

/// Shell convention: what follows a leading `$`, without white space at either end, is a command,
/// and none at all where nothing is left. Any other line is text.
pub open spec fn shell_action(line: Seq<char>) -> Option<ActionView> {
    if line.len() > 0 && line[0] == '$' {
        let command = trim(line.skip(1));
        if command.len() == 0 {
            None
        } else {
            Some(ActionView::ShellCommand(command))
        }
    } else {
        Some(ActionView::Text(line))
    }
}

/// Whether `line` opens a fenced tool call.
pub open spec fn opens_fence(line: Seq<char>) -> bool {
    trim(line) == "```tool_call"@
}

/// Whether `line` closes a fenced tool call.
pub open spec fn closes_fence(line: Seq<char>) -> bool {
    trim(line) == "```"@
}

/// The tool call that a JSON document describes: an object whose member `name` is a string. Its
/// member `arguments` is handed on as it is; where there is none, an empty object stands in.
pub open spec fn document_tool_call(document: Value) -> Option<ActionView> {
    match json_node(document) {
        JsonNode::Object(members) => if members.contains_key("name"@) {
            match json_node(members["name"@]) {
                JsonNode::Text(name) => Some(
                    ActionView::ToolCallJson {
                        name,
                        arguments: if members.contains_key("arguments"@) {
                            members["arguments"@]
                        } else {
                            json_object(JsonMembers::empty())
                        },
                    },
                ),
                _ => None,
            }
        } else {
            None
        },
        _ => None,
    }
}

/// The tool call that the text inside a fence describes, if it describes one.
pub open spec fn fenced_tool_call(body: Seq<char>) -> Option<ActionView> {
    match json_document(body) {
        Some(document) => document_tool_call(document),
        None => None,
    }
}

/// Whether a JSON document has no member `arguments`, so that an empty object stands in.
pub open spec fn lacks_arguments(document: Value) -> bool {
    !(json_node(document) matches JsonNode::Object(members) && members.contains_key("arguments"@))
}

/// Whether the text inside a fence is a JSON document without a member `arguments`.
pub open spec fn body_lacks_arguments(fence: Option<Seq<char>>) -> bool {
    match fence {
        Some(body) => match json_document(body) {
            Some(document) => lacks_arguments(document),
            None => false,
        },
        None => false,
    }
}

/// The state of a [`LarqlEmulatorParser`]: outside any fence, or inside one after the text `body`.
pub struct ParserView {
    pub convention: EmulatorConvention,
    pub fence: Option<Seq<char>>,
}

/// Fenced convention: the fence (if any) after one more line, and the action that the line
/// completes.
pub open spec fn fenced_step(fence: Option<Seq<char>>, line: Seq<char>) -> (
    Option<Seq<char>>,
    Option<ActionView>,
) {
    match fence {
        None => if opens_fence(line) {
            (Some(Seq::empty()), None)
        } else {
            (None, Some(ActionView::Text(line)))
        },
        Some(body) => if closes_fence(line) {
            (None, fenced_tool_call(body))
        } else {
            (Some(body + line.push('\n')), None)
        },
    }
}

/// The state after one more line, and the action that the line completes.
pub open spec fn parser_step(state: ParserView, line: Seq<char>) -> (
    ParserView,
    Option<ActionView>,
) {
    match state.convention {
        EmulatorConvention::ShellCommand => (state, shell_action(line)),
        EmulatorConvention::FencedJson => {
            let (fence, action) = fenced_step(state.fence, line);
            (ParserView { fence, ..state }, action)
        },
    }
}

// ---------------------------------------------------------------------------
// The parser
// ---------------------------------------------------------------------------

#[derive(Clone, Copy, PartialEq, Eq, Structural)]
enum ParserState {
    Normal,
    InFence,
}

/// Buffered, whole-line-at-a-time parser of one answer.
pub struct LarqlEmulatorParser {
    convention: EmulatorConvention,
    state: ParserState,
    fence_buffer: String,
}

impl View for LarqlEmulatorParser {
    type V = ParserView;

    closed spec fn view(&self) -> ParserView {
        ParserView {
            convention: self.convention,
            fence: match self.state {
                ParserState::Normal => None,
                ParserState::InFence => Some(self.fence_buffer@),
            },
        }
    }
}

impl LarqlEmulatorParser {
    /// A parser for `convention`, outside any fence.
    pub fn new(convention: EmulatorConvention) -> (parser: Self)
        ensures
            parser@ == (ParserView { convention, fence: None }),
    {
        Self { convention, state: ParserState::Normal, fence_buffer: String::new() }
    }

    /// Feeds one line (no trailing `\n`) of the model's answer. Ordinary text comes back as
    /// [`EmulatedAction::Text`]; `None` means that the line says nothing by itself.
    pub fn push_line(&mut self, line: &str) -> (action: Option<EmulatedAction>)
        ensures
            (final(self)@, action_view(action)) == parser_step(old(self)@, line@),
            action matches Some(EmulatedAction::ToolCallJson { .. }) && body_lacks_arguments(
                old(self)@.fence,
            ) ==> object_reads_back(JsonMembers::empty()),
    {
        match self.convention {
            EmulatorConvention::ShellCommand => self.push_line_shell(line),
            EmulatorConvention::FencedJson => self.push_line_fenced(line),
        }
    }

    /// Takes one line under the shell convention. The line alone decides, and nothing is kept.
    pub fn push_line_shell(&self, line: &str) -> (action: Option<EmulatedAction>)
        ensures
            action_view(action) == shell_action(line@),
            line@.len() == 0 || line@[0] != '$' ==> (action matches Some(EmulatedAction::Text(text))
                && text@ == line@),
            action matches Some(EmulatedAction::ShellCommand(command)) ==> line@.len() > 0
                && line@[0] == '$' && command@ == trim(line@.skip(1)),
    {
        let chars = chars_of(line);
        if chars.len() > 0 && chars[0] == '$' {
            let rest = string_of(&chars, 1, chars.len());
            assert(rest@ =~= line@.skip(1));
            let command = trimmed(rest.as_str());
            if command.as_str().is_empty() {
                None
            } else {
                Some(EmulatedAction::ShellCommand(command))
            }
        } else {
            Some(EmulatedAction::Text(line.to_owned()))
        }
    }

    /// Takes one line under the fenced convention.
    pub fn push_line_fenced(&mut self, line: &str) -> (action: Option<EmulatedAction>)
        ensures
            final(self)@.convention == old(self)@.convention,
            (final(self)@.fence, action_view(action)) == fenced_step(old(self)@.fence, line@),
            action matches Some(EmulatedAction::ToolCallJson { .. }) && body_lacks_arguments(
                old(self)@.fence,
            ) ==> object_reads_back(JsonMembers::empty()),
    {
        let marker = trimmed(line);
        match self.state {
            ParserState::Normal => {
                if same_text(marker.as_str(), "```tool_call") {
                    self.state = ParserState::InFence;
                    self.fence_buffer = String::new();
                    None
                } else {
                    Some(EmulatedAction::Text(line.to_owned()))
                }
            },
            ParserState::InFence => {
                if same_text(marker.as_str(), "```") {
                    self.state = ParserState::Normal;
                    let action = match parse_document(self.fence_buffer.as_str()) {
                        Ok(document) => tool_call_from_document(&document),
                        Err(_) => None,
                    };
                    self.fence_buffer = String::new();
                    action
                } else {
                    self.fence_buffer.append(line);
                    self.fence_buffer.push('\n');
                    assert(self.fence_buffer@ =~= old(self).fence_buffer@ + line@.push('\n'));
                    None
                }
            },
        }
    }
}

/// The tool call that a JSON document describes, if it describes one.
pub fn tool_call_from_document(document: &Value) -> (action: Option<EmulatedAction>)
    ensures
        action_view(action) == document_tool_call(*document),
        action is Some <==> (json_node(*document) matches JsonNode::Object(members)
            && members.contains_key("name"@) && json_node(members["name"@]) is Text),
        action matches Some(found) ==> (found matches EmulatedAction::ToolCallJson {
            name,
            arguments,
        } && (json_node(*document) matches JsonNode::Object(members) && json_node(
            members["name"@],
        ) == JsonNode::Text(name@) && (members.contains_key("arguments"@) ==> arguments
            == members["arguments"@]))),
        action is Some && lacks_arguments(*document) ==> object_reads_back(JsonMembers::empty()),
{
    let name = match value_get(document, "name") {
        Some(member) => match value_as_str(member) {
            Some(name) => name.to_owned(),
            None => return None,
        },
        None => return None,
    };
    let arguments = match value_get(document, "arguments") {
        Some(arguments) => value_clone(arguments),
        None => object_value(object_new()),
    };
    Some(EmulatedAction::ToolCallJson { name, arguments })
}

// ---------------------------------------------------------------------------
// Prompting and dispatch
// ---------------------------------------------------------------------------

/// The text that introduces the tools to the model, followed by their list on a line of its own
/// where there is one.
pub open spec fn tool_description(tools_json: Option<Seq<char>>) -> Seq<char> {
    let intro = "\n\n# Tools\n\nYou have access to the following tools:\n\n"@;
    match tools_json {
        Some(json) => intro + json.push('\n'),
        None => intro,
    }
}

/// Tool-list prompt text around `tools_json`, the compact JSON form of the tools.
pub fn build_larql_emulator_tool_description(tools_json: Option<&str>) -> (description: String)
    ensures
        description@ == tool_description(
            match tools_json {
                Some(json) => Some(json@),
                None => None,
            },
        ),
{
    let mut description = "\n\n# Tools\n\nYou have access to the following tools:\n\n".to_owned();
    let ghost intro = description@;
    if let Some(json) = tools_json {
        description.append(json);
        description.push('\n');
        assert(description@ =~= intro + json@.push('\n'));
    }
    description
}

/// The members of a JSON object, and none for any other value.
pub open spec fn members_or_none(value: Value) -> JsonMembers {
    match json_node(value) {
        JsonNode::Object(members) => members,
        _ => JsonMembers::empty(),
    }
}

/// The message that carries `action`: text as it is, a shell command as a call of [`SHELL_TOOL`]
/// with the command as its one argument, any other call by its name and arguments. A request
/// stands under `id`.
pub open spec fn action_message(action: ActionView, id: Seq<char>) -> MessageView {
    assistant_says(
        match action {
            ActionView::Text(text) => ContentView::Text(text),
            ActionView::ShellCommand(command) => ContentView::ToolRequest {
                id,
                name: SHELL_TOOL@,
                arguments: JsonMembers::empty().insert("command"@, json_string(command)),
            },
            ActionView::ToolCallJson { name, arguments } => ContentView::ToolRequest {
                id,
                name,
                arguments: members_or_none(arguments),
            },
        },
    )
}

/// The message that carries `action`, with the given identifier for its request.
pub fn message_with_id(action: &EmulatedAction, id: String) -> (message: Message)
    ensures
        message@ == action_message(action@, id@),
        action@ matches ActionView::ShellCommand(command) ==> string_reads_back(command),
{
    match action {
        EmulatedAction::Text(text) => Message::assistant_text(text.clone()),
        EmulatedAction::ShellCommand(command) => {
            let mut arguments = object_new();
            object_insert(&mut arguments, "command".to_owned(), string_value(command.clone()));
            Message::assistant_tool_request(
                id,
                ToolCall { name: SHELL_TOOL.to_owned(), arguments },
            )
        },
        EmulatedAction::ToolCallJson { name, arguments } => {
            let arguments = match value_as_object(arguments) {
                Some(object) => object_clone(object),
                None => object_new(),
            };
            Message::assistant_tool_request(id, ToolCall { name: name.clone(), arguments })
        },
    }
}

/// The message that carries `action`. A request gets a fresh identifier.
pub fn message_for_action(action: &EmulatedAction) -> (message: Message)
    ensures
        match action@ {
            ActionView::Text(text) => message@ == assistant_says(ContentView::Text(text)),
            _ => exists|id: Seq<char>|
                is_request_id(id) && message@ == #[trigger] action_message(action@, id),
        },
        action@ matches ActionView::ShellCommand(command) ==> string_reads_back(command),
{
    match action {
        EmulatedAction::Text(text) => Message::assistant_text(text.clone()),
        _ => {
            let id = fresh_request_id();
            let ghost fresh = id@;
            let message = message_with_id(action, id);
            assert(is_request_id(fresh) && message@ == action_message(action@, fresh));
            message
        },
    }
}

// ---------------------------------------------------------------------------
// What holds of whole answers
// ---------------------------------------------------------------------------

/// The state after `lines`, and the action of each of them.
pub open spec fn parser_run(state: ParserView, lines: Seq<Seq<char>>) -> (
    ParserView,
    Seq<Option<ActionView>>,
)
    decreases lines.len(),
{
    if lines.len() == 0 {
        (state, Seq::empty())
    } else {
        let (before, actions) = parser_run(state, lines.drop_last());
        let (after, action) = parser_step(before, lines.last());
        (after, actions.push(action))
    }
}

/// Lines as they stand in a file: each ended by a line feed.
pub open spec fn lines_text(lines: Seq<Seq<char>>) -> Seq<char>
    decreases lines.len(),
{
    if lines.len() == 0 {
        Seq::empty()
    } else {
        lines_text(lines.drop_last()) + lines.last().push('\n')
    }
}

/// Under the shell convention every line is decided by itself, whatever came before it.
pub proof fn shell_lines_are_independent(state: ParserView, lines: Seq<Seq<char>>)
    requires
        state.convention == EmulatorConvention::ShellCommand,
    ensures
        parser_run(state, lines) == (state, lines.map_values(|line: Seq<char>| shell_action(line))),
    decreases lines.len(),
{
    let actions = lines.map_values(|line: Seq<char>| shell_action(line));
    if lines.len() == 0 {
        assert(actions =~= Seq::empty());
    } else {
        shell_lines_are_independent(state, lines.drop_last());
        assert(actions =~= lines.drop_last().map_values(
            |line: Seq<char>| shell_action(line),
        ).push(shell_action(lines.last())));
    }
}

/// Under the shell convention a line is passed over exactly where it is a `$` with nothing but
/// white space behind it.
pub proof fn empty_commands_are_ignored(line: Seq<char>)
    ensures
        shell_action(line) is None <==> (line.len() > 0 && line[0] == '$' && is_blank(
            line.skip(1),
        )),
{
    if line.len() > 0 {
        trimming_empties_blank_text_only(line.skip(1));
    }
}

/// Commands are never empty, and neither begin nor end in white space.
pub proof fn commands_are_trimmed(line: Seq<char>)
    ensures
        shell_action(line) matches Some(ActionView::ShellCommand(command)) ==> command.len() > 0
            && !is_white_space(command[0]) && !is_white_space(command.last()),
{
    if line.len() > 0 {
        let rest = trim_start(line.skip(1));
        lemma_trim_start_parts(line.skip(1));
        lemma_trim_end_parts(rest);
    }
}

/// Under the shell convention the answer depends on the line alone, not on the parser, and the
/// parser is as before.
pub proof fn shell_answers_depend_on_the_line_alone(p: ParserView, q: ParserView, line: Seq<char>)
    requires
        p.convention == EmulatorConvention::ShellCommand,
        q.convention == EmulatorConvention::ShellCommand,
    ensures
        parser_step(p, line).1 == parser_step(q, line).1,
        parser_step(p, line).0 == p,
{
}

/// A command written behind a `$`, with any white space around it, reads back as itself.
pub proof fn padded_commands_read_back(before: Seq<char>, command: Seq<char>, after: Seq<char>)
    requires
        is_blank(before),
        is_blank(after),
        command.len() > 0,
        trim(command) == command,
    ensures
        shell_action(seq!['$'] + (before + command + after)) == Some(
            ActionView::ShellCommand(command),
        ),
{
    let padded = before + command + after;
    assert((seq!['$'] + padded).skip(1) =~= padded);
    trimming_undoes_padding(before, command, after);
}

/// The markers open and close a fence, with or without white space around them, and neither does
/// the other's work.
pub proof fn markers_open_and_close_fences(before: Seq<char>, after: Seq<char>)
    requires
        is_blank(before),
        is_blank(after),
    ensures
        opens_fence("```tool_call"@),
        closes_fence("```"@),
        opens_fence(before + "```tool_call"@ + after),
        closes_fence(before + "```"@ + after),
        !closes_fence(before + "```tool_call"@ + after),
        !opens_fence(before + "```"@ + after),
{
    reveal_strlit("```tool_call");
    reveal_strlit("```");
    tight_text_is_not_trimmed("```tool_call"@);
    tight_text_is_not_trimmed("```"@);
    trimming_undoes_padding(before, "```tool_call"@, after);
    trimming_undoes_padding(before, "```"@, after);
    assert("```tool_call"@.len() != "```"@.len());
}

/// Outside fences every line is handed through as text, unchanged.
pub proof fn unfenced_lines_are_text(state: ParserView, lines: Seq<Seq<char>>)
    requires
        state.convention == EmulatorConvention::FencedJson,
        state.fence is None,
        forall|i: int| 0 <= i < lines.len() ==> !opens_fence(#[trigger] lines[i]),
    ensures
        parser_run(state, lines) == (
            state,
            lines.map_values(|line: Seq<char>| Some(ActionView::Text(line))),
        ),
    decreases lines.len(),
{
    let actions = lines.map_values(|line: Seq<char>| Some(ActionView::Text(line)));
    if lines.len() == 0 {
        assert(actions =~= Seq::empty());
    } else {
        unfenced_lines_are_text(state, lines.drop_last());
        assert(!opens_fence(lines[lines.len() - 1]));
        assert(actions =~= lines.drop_last().map_values(
            |line: Seq<char>| Some(ActionView::Text(line)),
        ).push(Some(ActionView::Text(lines.last()))));
    }
}

/// A parser for fenced JSON, inside a fence after the text `body`.
pub open spec fn inside_fence(body: Seq<char>) -> ParserView {
    ParserView { convention: EmulatorConvention::FencedJson, fence: Some(body) }
}

/// Inside a fence nothing is said, and the text of the lines is gathered.
pub proof fn fenced_lines_are_gathered(body: Seq<char>, lines: Seq<Seq<char>>)
    requires
        forall|i: int| 0 <= i < lines.len() ==> !closes_fence(#[trigger] lines[i]),
    ensures
        parser_run(inside_fence(body), lines) == (
            inside_fence(body + lines_text(lines)),
            lines.map_values(|line: Seq<char>| None::<ActionView>),
        ),
    decreases lines.len(),
{
    let actions = lines.map_values(|line: Seq<char>| None::<ActionView>);
    if lines.len() == 0 {
        assert(actions =~= Seq::empty());
        assert(body + lines_text(lines) =~= body);
    } else {
        fenced_lines_are_gathered(body, lines.drop_last());
        assert(!closes_fence(lines[lines.len() - 1]));
        assert(actions =~= lines.drop_last().map_values(
            |line: Seq<char>| None::<ActionView>,
        ).push(None));
        assert(body + lines_text(lines) =~= (body + lines_text(lines.drop_last()))
            + lines.last().push('\n'));
    }
}

/// A whole fenced block: nothing is said before the closing fence, which completes the tool call
/// that the lines between the fences describe, or none where they describe none. Either way the
/// parser is then back outside, as if it were new.
pub proof fn fenced_block_completes_on_closing_fence(
    open: Seq<char>,
    lines: Seq<Seq<char>>,
    close: Seq<char>,
)
    requires
        opens_fence(open),
        closes_fence(close),
        forall|i: int| 0 <= i < lines.len() ==> !closes_fence(#[trigger] lines[i]),
    ensures
        ({
            let outside = ParserView { convention: EmulatorConvention::FencedJson, fence: None };
            let block = (seq![open] + lines).push(close);
            parser_run(outside, block) == (
                outside,
                Seq::new(lines.len() + 1, |i: int| None::<ActionView>).push(
                    fenced_tool_call(lines_text(lines)),
                ),
            )
        }),
{
    let outside = ParserView { convention: EmulatorConvention::FencedJson, fence: None };
    let block = (seq![open] + lines).push(close);
    assert(block.drop_last() =~= seq![open] + lines);
    parser_run_concat(outside, seq![open], lines);
    assert(seq![open].drop_last() =~= Seq::empty());
    reveal_with_fuel(parser_run, 2);
    assert(parser_run(outside, seq![open]) == (inside_fence(Seq::empty()), seq![None::<ActionView>]));
    fenced_lines_are_gathered(Seq::empty(), lines);
    assert(Seq::<char>::empty() + lines_text(lines) =~= lines_text(lines));
    assert(seq![None::<ActionView>] + lines.map_values(|line: Seq<char>| None::<ActionView>)
        =~= Seq::new(lines.len() + 1, |i: int| None::<ActionView>));
}

/// Once a fence is closed, whether its body was well-formed or not, the parser answers all further
/// lines as a new one does: nothing of the closed block is left.
pub proof fn closed_fences_leave_nothing_behind(
    body: Seq<char>,
    close: Seq<char>,
    lines: Seq<Seq<char>>,
)
    requires
        closes_fence(close),
    ensures
        parser_run(parser_step(inside_fence(body), close).0, lines) == parser_run(
            ParserView { convention: EmulatorConvention::FencedJson, fence: None },
            lines,
        ),
{
}

/// Feeding lines in two portions is feeding them in one.
pub proof fn parser_run_concat(state: ParserView, first: Seq<Seq<char>>, second: Seq<Seq<char>>)
    ensures
        ({
            let (middle, actions) = parser_run(state, first);
            let (after, more) = parser_run(middle, second);
            parser_run(state, first + second) == (after, actions + more)
        }),
    decreases second.len(),
{
    let (middle, actions) = parser_run(state, first);
    if second.len() == 0 {
        assert(first + second =~= first);
        assert(actions + Seq::<Option<ActionView>>::empty() =~= actions);
    } else {
        parser_run_concat(state, first, second.drop_last());
        assert((first + second).drop_last() =~= first + second.drop_last());
        let (before, more) = parser_run(middle, second.drop_last());
        let action = parser_step(before, second.last()).1;
        assert((actions + more).push(action) =~= actions + more.push(action));
    }
}

// ---------------------------------------------------------------------------
// What lines and documents are read as
// ---------------------------------------------------------------------------

/// What an action says is all that it holds.
pub proof fn actions_say_all_they_hold(action: EmulatedAction)
    ensures
        action_view(Some(action)) == Some(action@),
        action_view(None) is None,
        match action {
            EmulatedAction::Text(text) => action@ == ActionView::Text(text@),
            EmulatedAction::ShellCommand(command) => action@ == ActionView::ShellCommand(command@),
            EmulatedAction::ToolCallJson { name, arguments } => action@
                == (ActionView::ToolCallJson { name: name@, arguments }),
        },
{
}

/// A parser for shell commands hands every line that does not begin with `$` through as text,
/// unchanged.
pub proof fn lines_without_a_dollar_are_text(parser: ParserView, line: Seq<char>)
    requires
        parser.convention == EmulatorConvention::ShellCommand,
        line.len() == 0 || line[0] != '$',
    ensures
        parser_step(parser, line) == (parser, Some(ActionView::Text(line))),
        shell_action(line) == Some(ActionView::Text(line)),
{
}

/// A parser for shell commands takes what stands behind a leading `$`, without the white space
/// around it, for a command, and passes over a `$` with nothing but white space behind it.
pub proof fn lines_with_a_dollar_are_commands(
    parser: ParserView,
    before: Seq<char>,
    command: Seq<char>,
    after: Seq<char>,
)
    requires
        parser.convention == EmulatorConvention::ShellCommand,
        forall|i: int| 0 <= i < before.len() ==> is_white_space(#[trigger] before[i]),
        forall|i: int| 0 <= i < after.len() ==> is_white_space(#[trigger] after[i]),
        command.len() > 0 ==> !is_white_space(command[0]) && !is_white_space(command.last()),
    ensures
        ({
            let line = seq!['$'] + (before + command + after);
            let action = if command.len() > 0 {
                Some(ActionView::ShellCommand(command))
            } else {
                None
            };
            parser_step(parser, line) == (parser, action) && shell_action(line) == action
        }),
{
    let padded = before + command + after;
    assert((seq!['$'] + padded).skip(1) =~= padded);
    trimming_leaves_the_core(before, command, after);
}

/// A line opens or closes a fence exactly where it is the marker, with or without white space
/// around it.
pub proof fn only_markers_are_fences(before: Seq<char>, core: Seq<char>, after: Seq<char>)
    requires
        forall|i: int| 0 <= i < before.len() ==> is_white_space(#[trigger] before[i]),
        forall|i: int| 0 <= i < after.len() ==> is_white_space(#[trigger] after[i]),
        core.len() > 0 ==> !is_white_space(core[0]) && !is_white_space(core.last()),
    ensures
        opens_fence(before + core + after) <==> core == "```tool_call"@,
        closes_fence(before + core + after) <==> core == "```"@,
{
    trimming_leaves_the_core(before, core, after);
}

/// What is gathered of one line is the line and a line feed, and of two runs of lines what is
/// gathered of each.
pub proof fn gathered_text_is_that_of_the_lines(
    line: Seq<char>,
    first: Seq<Seq<char>>,
    second: Seq<Seq<char>>,
)
    ensures
        lines_text(Seq::empty()) == Seq::<char>::empty(),
        lines_text(seq![line]) == line.push('\n'),
        lines_text(first + second) == lines_text(first) + lines_text(second),
    decreases second.len(),
{
    assert(seq![line].drop_last() =~= Seq::empty());
    assert(lines_text(seq![line].drop_last()) == Seq::<char>::empty());
    assert(lines_text(seq![line]) =~= line.push('\n'));
    if second.len() == 0 {
        assert(first + second =~= first);
        assert(lines_text(first) + lines_text(second) =~= lines_text(first));
    } else {
        gathered_text_is_that_of_the_lines(line, first, second.drop_last());
        assert((first + second).drop_last() =~= first + second.drop_last());
        assert((first + second).last() == second.last());
        assert(lines_text(first + second) =~= lines_text(first) + lines_text(second));
    }
}

/// One line at a parser for fenced JSON: outside a fence it is text unless it opens one, and inside
/// it is added to the body, with a line feed, unless it closes it.
pub proof fn fenced_lines_are_text_or_body(body: Seq<char>, line: Seq<char>)
    ensures
        ({
            let outside = ParserView { convention: EmulatorConvention::FencedJson, fence: None };
            let inside = ParserView {
                convention: EmulatorConvention::FencedJson,
                fence: Some(body),
            };
            &&& !opens_fence(line) ==> parser_step(outside, line) == (
                outside,
                Some(ActionView::Text(line)),
            )
            &&& opens_fence(line) ==> parser_step(outside, line).1 is None && parser_step(
                outside,
                line,
            ).0.fence == Some(Seq::<char>::empty())
            &&& !closes_fence(line) ==> parser_step(inside, line).1 is None && parser_step(
                inside,
                line,
            ).0.fence == Some(body + line + seq!['\n'])
            &&& closes_fence(line) ==> parser_step(inside, line).0 == outside
        }),
{
    assert(body + line.push('\n') =~= body + line + seq!['\n']);
}

/// The tool call of a JSON object with a name and arguments has that name, and carries exactly
/// those arguments, whatever they are.
pub proof fn tool_calls_carry_name_and_arguments(
    document: Value,
    members: JsonMembers,
    name: Seq<char>,
)
    requires
        json_node(document) == JsonNode::Object(members),
        members.contains_key("name"@),
        json_node(members["name"@]) == JsonNode::Text(name),
    ensures
        document_tool_call(document) matches Some(ActionView::ToolCallJson { name: called, arguments })
            && called == name && (members.contains_key("arguments"@) ==> arguments
            == members["arguments"@]) && (!members.contains_key("arguments"@) ==> arguments
            == json_object(JsonMembers::empty())),
{
}

/// Nothing but a JSON object whose member `name` is a string makes a tool call.
pub proof fn tool_calls_need_a_name(document: Value)
    ensures
        document_tool_call(document) is Some <==> (json_node(document) matches JsonNode::Object(
            members,
        ) && members.contains_key("name"@) && json_node(members["name"@]) is Text),
{
}

/// Closing a fence completes the tool call that the body describes as a JSON document, name and
/// arguments unchanged.
pub proof fn closing_a_fence_calls_the_tool(
    body: Seq<char>,
    close: Seq<char>,
    document: Value,
    members: JsonMembers,
    name: Seq<char>,
)
    requires
        closes_fence(close),
        json_document(body) == Some(document),
        json_node(document) == JsonNode::Object(members),
        members.contains_key("name"@),
        json_node(members["name"@]) == JsonNode::Text(name),
        members.contains_key("arguments"@),
    ensures
        parser_step(
            ParserView { convention: EmulatorConvention::FencedJson, fence: Some(body) },
            close,
        ).1 == Some(ActionView::ToolCallJson { name, arguments: members["arguments"@] }),
{
}

/// Closing a fence says nothing where the body is no JSON document, or one without a name.
pub proof fn closing_a_fence_may_say_nothing(body: Seq<char>, close: Seq<char>)
    requires
        closes_fence(close),
        json_document(body) matches Some(document) ==> !(json_node(document) matches JsonNode::Object(
            members,
        ) && members.contains_key("name"@) && json_node(members["name"@]) is Text),
    ensures
        parser_step(
            ParserView { convention: EmulatorConvention::FencedJson, fence: Some(body) },
            close,
        ).1 is None,
{
}

/// The list of tools stands whole behind the introduction, on a line of its own.
pub proof fn the_tool_list_follows_the_introduction(json: Seq<char>)
    ensures
        tool_description(None)
            == "\n\n# Tools\n\nYou have access to the following tools:\n\n"@,
        tool_description(Some(json)) == tool_description(None) + json + seq!['\n'],
{
    assert(tool_description(None) + json.push('\n') =~= tool_description(None) + json + seq!['\n']);
}

/// Every action becomes one piece of a message of the assistant.
pub proof fn actions_become_one_piece(action: ActionView, id: Seq<char>)
    ensures
        action_message(action, id).role == Role::Assistant,
        action_message(action, id).content.len() == 1,
{
}

/// Text is carried unchanged.
pub proof fn text_is_carried_unchanged(text: Seq<char>, id: Seq<char>)
    ensures
        action_message(ActionView::Text(text), id).content[0] == ContentView::Text(text),
{
}

/// A shell command is carried whole, as the one argument of the shell tool, under the identifier.
pub proof fn commands_are_carried_to_the_shell_tool(command: Seq<char>, id: Seq<char>)
    ensures
        action_message(ActionView::ShellCommand(command), id).content[0] matches
            ContentView::ToolRequest { id: under, name, arguments } && under == id && name
            == "developer__shell"@ && arguments.contains_key("command"@) && arguments["command"@]
            == json_string(command) && forall|key: Seq<char>| #[trigger]
            arguments.contains_key(key) ==> key == "command"@,
{
}

/// A tool call is carried under its name and the identifier, with every member of its arguments
/// where they are an object, and without arguments where they are not.
pub proof fn tool_calls_are_carried_whole(name: Seq<char>, arguments: Value, id: Seq<char>)
    ensures
        action_message(ActionView::ToolCallJson { name, arguments }, id).content[0] matches
            ContentView::ToolRequest { id: under, name: called, arguments: handed } && under == id
            && called == name && (json_node(arguments) matches JsonNode::Object(members) ==> handed
            == members) && (!(json_node(arguments) is Object) ==> handed == JsonMembers::empty()),
{
}

} // verus!
