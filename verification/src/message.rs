//! Messages of a conversation and the tool calls they ask for.
use crate::json::{object_clone, object_members, JsonMembers, JsonObject};
use rmcp::model::CallToolRequestParams;
use vstd::prelude::*;

verus! {

/// Who speaks a message.
#[derive(Clone, Copy, PartialEq, Eq, Debug, Structural)]
pub enum Role {
    User,
    Assistant,
}

/// A tool to call, and what to hand it.
#[derive(Debug, PartialEq)]
pub struct ToolCall {
    pub name: String,
    pub arguments: JsonObject,
}

/// A request to call a tool, under an identifier that its response will repeat.
#[derive(Debug, PartialEq)]
pub struct ToolRequest {
    pub id: String,
    pub tool_call: ToolCall,
}

/// One piece of a message.
#[derive(Debug, PartialEq)]
pub enum MessageContent {
    Text(String),
    ToolRequest(ToolRequest),
}

/// A message: who speaks, and what.
#[derive(Debug, PartialEq)]
pub struct Message {
    pub role: Role,
    pub content: Vec<MessageContent>,
}

/// What a [`MessageContent`] says.
pub enum ContentView {
    Text(Seq<char>),
    ToolRequest { id: Seq<char>, name: Seq<char>, arguments: JsonMembers },
}

/// What a [`Message`] says.
pub struct MessageView {
    pub role: Role,
    pub content: Seq<ContentView>,
}

impl View for MessageContent {
    type V = ContentView;

    open spec fn view(&self) -> ContentView {
        match self {
            MessageContent::Text(text) => ContentView::Text(text@),
            MessageContent::ToolRequest(request) => ContentView::ToolRequest {
                id: request.id@,
                name: request.tool_call.name@,
                arguments: object_members(request.tool_call.arguments),
            },
        }
    }
}

impl View for Message {
    type V = MessageView;

    open spec fn view(&self) -> MessageView {
        MessageView {
            role: self.role,
            content: self.content@.map_values(|content: MessageContent| content@),
        }
    }
}

/// A message of the assistant with the one piece `content`.
pub open spec fn assistant_says(content: ContentView) -> MessageView {
    MessageView { role: Role::Assistant, content: seq![content] }
}

impl Message {
    /// A message of the assistant with the one piece `content`.
    pub fn assistant(content: MessageContent) -> (message: Message)
        ensures
            message@ == assistant_says(content@),
    {
        let mut pieces: Vec<MessageContent> = Vec::new();
        pieces.push(content);
        let message = Message { role: Role::Assistant, content: pieces };
        assert(message@.content =~= seq![content@]);
        message
    }

    /// A message of the assistant that says `text`.
    pub fn assistant_text(text: String) -> (message: Message)
        ensures
            message@ == assistant_says(ContentView::Text(text@)),
    {
        Message::assistant(MessageContent::Text(text))
    }

    /// A message of the assistant that asks for `tool_call` under `id`.
    pub fn assistant_tool_request(id: String, tool_call: ToolCall) -> (message: Message)
        ensures
            message@ == assistant_says(
                ContentView::ToolRequest {
                    id: id@,
                    name: tool_call.name@,
                    arguments: object_members(tool_call.arguments),
                },
            ),
    {
        Message::assistant(MessageContent::ToolRequest(ToolRequest { id, tool_call }))
    }
}

// ---------------------------------------------------------------------------
// Request parameters of the Model Context Protocol
// ---------------------------------------------------------------------------

/// Declares `rmcp::model::CallToolRequestParams`, which is built here and handed on.
#[verifier::external_type_specification]
#[verifier::external_body]
pub struct ExCallToolRequestParams(rmcp::model::CallToolRequestParams);

/// The name of the tool that `params` call.
pub uninterp spec fn requested_name(params: rmcp::model::CallToolRequestParams) -> Seq<char>;

/// The arguments that `params` hand to the tool, where they hand it any.
pub uninterp spec fn requested_arguments(params: rmcp::model::CallToolRequestParams) -> Option<
    JsonMembers,
>;

/// Whether `params` hold nothing besides name and arguments: no metadata, no input responses and
/// no request state.
pub uninterp spec fn is_bare_request(params: rmcp::model::CallToolRequestParams) -> bool;

/// Calls `rmcp::model::CallToolRequestParams::new` and `with_arguments`: the parameters of a tool
/// call with that name and those arguments, and with nothing else set.
#[verifier::external_body]
fn new_call_tool_request(name: String, arguments: JsonObject) -> (params: CallToolRequestParams)
    ensures
        requested_name(params) == name@,
        requested_arguments(params) == Some(object_members(arguments)),
        is_bare_request(params),
{
    CallToolRequestParams::new(name).with_arguments(arguments)
}

impl ToolCall {
    /// The protocol's request parameters for this call.
    pub fn request_params(&self) -> (params: CallToolRequestParams)
        ensures
            requested_name(params) == self.name@,
            requested_arguments(params) == Some(object_members(self.arguments)),
            is_bare_request(params),
    {
        new_call_tool_request(self.name.clone(), object_clone(&self.arguments))
    }
}

// ---------------------------------------------------------------------------
// Request identifiers
// ---------------------------------------------------------------------------

/// Whether `c` is a lower-case hexadecimal digit.
pub open spec fn is_hex_digit(c: char) -> bool {
    '0' <= c <= '9' || 'a' <= c <= 'f'
}

/// Whether `s` is a random (version 4) UUID in its usual form: lower-case hexadecimal digits in
/// groups of 8, 4, 4, 4 and 12, with hyphens between them.
pub open spec fn is_request_id(s: Seq<char>) -> bool {
    &&& s.len() == 36
    &&& forall|i: int|
        0 <= i < 36 ==> if i == 8 || i == 13 || i == 18 || i == 23 {
            #[trigger] s[i] == '-'
        } else {
            is_hex_digit(s[i])
        }
    &&& s[14] == '4'
    &&& s[19] == '8' || s[19] == '9' || s[19] == 'a' || s[19] == 'b'
}

/// Calls `Uuid::new_v4` and its `to_string`: a fresh random UUID in its usual form. Which one is
/// left to chance. `new_v4` panics where the operating system gives it no random bytes.
#[verifier::external_body]
pub(crate) fn fresh_request_id() -> (id: String)
    ensures
        is_request_id(id@),
{
    uuid::Uuid::new_v4().to_string()
}

// ---------------------------------------------------------------------------
// Nothing of a message goes unsaid
// ---------------------------------------------------------------------------

/// What a message says is all of it: its role, and each of its pieces at its place.
pub proof fn messages_say_all_they_hold(message: Message)
    ensures
        message@.role == message.role,
        message@.content.len() == message.content@.len(),
        forall|i: int|
            0 <= i < message.content@.len() ==> match message.content@[i] {
                MessageContent::Text(text) => #[trigger] message@.content[i] == ContentView::Text(
                    text@,
                ),
                MessageContent::ToolRequest(request) => message@.content[i]
                    == (ContentView::ToolRequest {
                    id: request.id@,
                    name: request.tool_call.name@,
                    arguments: object_members(request.tool_call.arguments),
                }),
            },
{
}

/// What the assistant says with one piece is that piece, alone.
pub proof fn the_assistant_says_one_piece(content: ContentView)
    ensures
        assistant_says(content).role == Role::Assistant,
        assistant_says(content).content.len() == 1,
        assistant_says(content).content[0] == content,
{
}

} // verus!
