//! Messages of a conversation.
//!
//! [`ChatMessage`] is what goes to a provider; [`DomainMessage`] says who speaks and in
//! which blocks, with nothing of a provider in it. Each converts into the other, and a
//! chat message survives the way there and back.
use crate::ids::ToolCallId;
use crate::json::json_copy;
use crate::json::json_model;
use crate::json::JsonModel;
use crate::text::views;
use crate::text::views_push;
use vstd::prelude::*;
use vstd::string::*;

verus! {

/// A call of a tool that the model asked for.
#[derive(Debug, PartialEq, Eq)]
pub struct ToolCall {
    pub call_id: ToolCallId,
    /// The provider's own name for the call.
    pub provider_id: String,
    pub name: String,
    /// The arguments as the model wrote them: a JSON document.
    pub arguments: String,
}

/// What a [`ToolCall`] says.
pub struct ToolCallView {
    pub call_id: ToolCallId,
    pub provider_id: Seq<char>,
    pub name: Seq<char>,
    pub arguments: Seq<char>,
}

impl View for ToolCall {
    type V = ToolCallView;

    open spec fn view(&self) -> ToolCallView {
        ToolCallView {
            call_id: self.call_id,
            provider_id: self.provider_id@,
            name: self.name@,
            arguments: self.arguments@,
        }
    }
}

impl Clone for ToolCall {
    fn clone(&self) -> (r: Self)
        ensures
            r == *self,
    {
        ToolCall {
            call_id: self.call_id,
            provider_id: self.provider_id.clone(),
            name: self.name.clone(),
            arguments: self.arguments.clone(),
        }
    }
}

/// A message as a provider takes it.
#[derive(Debug, PartialEq, Eq)]
pub enum ChatMessage {
    System(String),
    User(String),
    Assistant { content: String, tool_calls: Vec<ToolCall> },
    Tool { tool_call_id: String, name: String, content: String },
}

/// What a [`ChatMessage`] says.
pub enum ChatMessageView {
    System(Seq<char>),
    User(Seq<char>),
    Assistant { content: Seq<char>, tool_calls: Seq<ToolCallView> },
    Tool { tool_call_id: Seq<char>, name: Seq<char>, content: Seq<char> },
}

impl View for ChatMessage {
    type V = ChatMessageView;

    open spec fn view(&self) -> ChatMessageView {
        match *self {
            ChatMessage::System(text) => ChatMessageView::System(text@),
            ChatMessage::User(text) => ChatMessageView::User(text@),
            ChatMessage::Assistant { content, tool_calls } => ChatMessageView::Assistant {
                content: content@,
                tool_calls: views(tool_calls@),
            },
            ChatMessage::Tool { tool_call_id, name, content } => ChatMessageView::Tool {
                tool_call_id: tool_call_id@,
                name: name@,
                content: content@,
            },
        }
    }
}

/// A copy of a list of calls.
pub fn clone_calls(calls: &Vec<ToolCall>) -> (r: Vec<ToolCall>)
    ensures
        r@ == calls@,
{
    let r = calls.clone();
    assert(r@ =~= calls@);
    r
}

impl Clone for ChatMessage {
    fn clone(&self) -> (r: Self)
        ensures
            r@ == self@,
    {
        match self {
            ChatMessage::System(text) => ChatMessage::System(text.clone()),
            ChatMessage::User(text) => ChatMessage::User(text.clone()),
            ChatMessage::Assistant { content, tool_calls } => ChatMessage::Assistant {
                content: content.clone(),
                tool_calls: clone_calls(tool_calls),
            },
            ChatMessage::Tool { tool_call_id, name, content } => ChatMessage::Tool {
                tool_call_id: tool_call_id.clone(),
                name: name.clone(),
                content: content.clone(),
            },
        }
    }
}

/// A copy of some messages in a row.
pub fn clone_messages(messages: &Vec<ChatMessage>, lo: usize, hi: usize) -> (r: Vec<ChatMessage>)
    requires
        lo <= hi <= messages@.len(),
    ensures
        views(r@) == views(messages@).subrange(lo as int, hi as int),
{
    let mut out: Vec<ChatMessage> = Vec::new();
    let mut i: usize = lo;
    while i < hi
        invariant
            lo <= i <= hi <= messages@.len(),
            views(out@) == views(messages@).subrange(lo as int, i as int),
        decreases hi - i,
    {
        let next = messages[i].clone();
        proof {
            views_push(out@, next);
        }
        out.push(next);
        i += 1;
        assert(views(out@) =~= views(messages@).subrange(lo as int, i as int));
    }
    out
}

/// Appends copies of all of `more` to `messages`.
pub fn extend_messages(messages: &mut Vec<ChatMessage>, more: &Vec<ChatMessage>)
    ensures
        views(final(messages)@) == views(old(messages)@) + views(more@),
{
    let ghost start = views(messages@);
    let mut i: usize = 0;
    assert(start + views(more@).take(0) =~= start);
    while i < more.len()
        invariant
            i <= more@.len(),
            views(messages@) == start + views(more@).take(i as int),
        decreases more@.len() - i,
    {
        let next = more[i].clone();
        proof {
            views_push(messages@, next);
        }
        messages.push(next);
        i += 1;
        assert(views(messages@) =~= start + views(more@).take(i as int));
    }
    assert(views(more@).take(i as int) =~= views(more@));
}

/// A tool as it is announced to the model.
#[derive(Debug, PartialEq, Eq)]
pub struct ToolDef {
    pub name: String,
    pub description: String,
    /// The JSON schema of the arguments.
    pub parameters: serde_json::Value,
}

/// What a [`ToolDef`] says.
pub struct ToolDefView {
    pub name: Seq<char>,
    pub description: Seq<char>,
    pub parameters: JsonModel,
}

impl View for ToolDef {
    type V = ToolDefView;

    open spec fn view(&self) -> ToolDefView {
        ToolDefView {
            name: self.name@,
            description: self.description@,
            parameters: json_model(self.parameters),
        }
    }
}

impl Clone for ToolDef {
    fn clone(&self) -> (r: Self)
        ensures
            r@ == self@,
    {
        ToolDef {
            name: self.name.clone(),
            description: self.description.clone(),
            parameters: json_copy(&self.parameters),
        }
    }
}

/// Who speaks in a message.
#[derive(Debug, Clone, Copy, PartialEq, Eq, Structural)]
pub enum DomainRole {
    System,
    User,
    Assistant,
    Tool,
}

/// A part of a message.
#[derive(Debug, PartialEq, Eq)]
pub enum DomainContentBlock {
    /// Text.
    Text(String),
    /// A call of a tool by the model.
    ToolCall(ToolCall),
    /// What a tool gave back.
    ToolResult { tool_call_id: String, name: String, content: String },
}

/// What a [`DomainContentBlock`] says.
pub enum DomainBlockView {
    Text(Seq<char>),
    ToolCall(ToolCallView),
    ToolResult { tool_call_id: Seq<char>, name: Seq<char>, content: Seq<char> },
}

impl View for DomainContentBlock {
    type V = DomainBlockView;

    open spec fn view(&self) -> DomainBlockView {
        match *self {
            DomainContentBlock::Text(text) => DomainBlockView::Text(text@),
            DomainContentBlock::ToolCall(call) => DomainBlockView::ToolCall(call@),
            DomainContentBlock::ToolResult { tool_call_id, name, content } =>
                DomainBlockView::ToolResult {
                tool_call_id: tool_call_id@,
                name: name@,
                content: content@,
            },
        }
    }
}

impl Clone for DomainContentBlock {
    fn clone(&self) -> (r: Self)
        ensures
            r == *self,
    {
        match self {
            DomainContentBlock::Text(text) => DomainContentBlock::Text(text.clone()),
            DomainContentBlock::ToolCall(call) => DomainContentBlock::ToolCall(call.clone()),
            DomainContentBlock::ToolResult { tool_call_id, name, content } =>
                DomainContentBlock::ToolResult {
                tool_call_id: tool_call_id.clone(),
                name: name.clone(),
                content: content.clone(),
            },
        }
    }
}

/// A message as the agent sees it: a role and its blocks.
#[derive(Debug, PartialEq, Eq)]
pub struct DomainMessage {
    pub role: DomainRole,
    pub content: Vec<DomainContentBlock>,
}

/// What a [`DomainMessage`] says.
pub struct DomainMessageView {
    pub role: DomainRole,
    pub content: Seq<DomainBlockView>,
}

impl View for DomainMessage {
    type V = DomainMessageView;

    open spec fn view(&self) -> DomainMessageView {
        DomainMessageView { role: self.role, content: views(self.content@) }
    }
}

impl Clone for DomainMessage {
    fn clone(&self) -> (r: Self)
        ensures
            r@ == self@,
    {
        let content = self.content.clone();
        assert(content@ =~= self.content@);
        DomainMessage { role: self.role, content }
    }
}

impl DomainMessage {
    /// A message of one text block.
    pub fn text(role: DomainRole, text: String) -> (r: Self)
        ensures
            r@ == (DomainMessageView { role, content: seq![DomainBlockView::Text(text@)] }),
    {
        let mut content: Vec<DomainContentBlock> = Vec::new();
        content.push(DomainContentBlock::Text(text));
        let r = DomainMessage { role, content };
        assert(r@.content =~= seq![DomainBlockView::Text(text@)]);
        r
    }
}

/// The call blocks of some calls.
pub open spec fn call_blocks(calls: Seq<ToolCallView>) -> Seq<DomainBlockView> {
    Seq::new(calls.len(), |i: int| DomainBlockView::ToolCall(calls[i]))
}

/// A chat message as a domain message. The text of an assistant comes first, where
/// there is any; its calls follow in order.
pub open spec fn domain_of(message: ChatMessageView) -> DomainMessageView {
    match message {
        ChatMessageView::System(text) => DomainMessageView {
            role: DomainRole::System,
            content: seq![DomainBlockView::Text(text)],
        },
        ChatMessageView::User(text) => DomainMessageView {
            role: DomainRole::User,
            content: seq![DomainBlockView::Text(text)],
        },
        ChatMessageView::Assistant { content, tool_calls } => DomainMessageView {
            role: DomainRole::Assistant,
            content: (if content.len() > 0 {
                seq![DomainBlockView::Text(content)]
            } else {
                Seq::empty()
            }) + call_blocks(tool_calls),
        },
        ChatMessageView::Tool { tool_call_id, name, content } => DomainMessageView {
            role: DomainRole::Tool,
            content: seq![DomainBlockView::ToolResult { tool_call_id, name, content }],
        },
    }
}

/// The text of the first text block.
pub open spec fn first_text_of(blocks: Seq<DomainBlockView>) -> Option<Seq<char>>
    decreases blocks.len(),
{
    if blocks.len() == 0 {
        None
    } else {
        match blocks[0] {
            DomainBlockView::Text(text) => Some(text),
            _ => first_text_of(blocks.drop_first()),
        }
    }
}

/// The first tool result, or an empty one.
pub open spec fn first_result_of(blocks: Seq<DomainBlockView>) -> ChatMessageView
    decreases blocks.len(),
{
    if blocks.len() == 0 {
        ChatMessageView::Tool {
            tool_call_id: Seq::empty(),
            name: Seq::empty(),
            content: Seq::empty(),
        }
    } else {
        match blocks[0] {
            DomainBlockView::ToolResult { tool_call_id, name, content } => ChatMessageView::Tool {
                tool_call_id,
                name,
                content,
            },
            _ => first_result_of(blocks.drop_first()),
        }
    }
}

/// All text blocks in a row.
pub open spec fn texts_of(blocks: Seq<DomainBlockView>) -> Seq<char>
    decreases blocks.len(),
{
    if blocks.len() == 0 {
        Seq::empty()
    } else {
        match blocks.last() {
            DomainBlockView::Text(text) => texts_of(blocks.drop_last()) + text,
            _ => texts_of(blocks.drop_last()),
        }
    }
}

/// All calls in order.
pub open spec fn calls_of(blocks: Seq<DomainBlockView>) -> Seq<ToolCallView>
    decreases blocks.len(),
{
    if blocks.len() == 0 {
        Seq::empty()
    } else {
        match blocks.last() {
            DomainBlockView::ToolCall(call) => calls_of(blocks.drop_last()).push(call),
            _ => calls_of(blocks.drop_last()),
        }
    }
}

/// A domain message as a chat message: the first text of a system or user message, all
/// texts and calls of an assistant, the first result of a tool.
pub open spec fn chat_of(message: DomainMessageView) -> ChatMessageView {
    match message.role {
        DomainRole::System => ChatMessageView::System(
            match first_text_of(message.content) {
                Some(text) => text,
                None => Seq::empty(),
            },
        ),
        DomainRole::User => ChatMessageView::User(
            match first_text_of(message.content) {
                Some(text) => text,
                None => Seq::empty(),
            },
        ),
        DomainRole::Assistant => ChatMessageView::Assistant {
            content: texts_of(message.content),
            tool_calls: calls_of(message.content),
        },
        DomainRole::Tool => first_result_of(message.content),
    }
}

impl From<&ChatMessage> for DomainMessage {
    fn from(message: &ChatMessage) -> (r: Self)
        ensures
            r@ == domain_of(message@),
    {
        match message {
            ChatMessage::System(text) => Self::text(DomainRole::System, text.clone()),
            ChatMessage::User(text) => Self::text(DomainRole::User, text.clone()),
            ChatMessage::Assistant { content, tool_calls } => {
                let mut blocks: Vec<DomainContentBlock> = Vec::new();
                if !content.as_str().is_empty() {
                    blocks.push(DomainContentBlock::Text(content.clone()));
                }
                let ghost front = views(blocks@);
                proof {
                    assert(front =~= if content@.len() > 0 {
                        seq![DomainBlockView::Text(content@)]
                    } else {
                        Seq::<DomainBlockView>::empty()
                    });
                    assert(front + call_blocks(views(tool_calls@)).take(0) =~= front);
                }
                let mut i: usize = 0;
                while i < tool_calls.len()
                    invariant
                        i <= tool_calls@.len(),
                        views(blocks@) == front + call_blocks(views(tool_calls@)).take(i as int),
                    decreases tool_calls@.len() - i,
                {
                    let block = DomainContentBlock::ToolCall(tool_calls[i].clone());
                    proof {
                        views_push(blocks@, block);
                    }
                    blocks.push(block);
                    i += 1;
                    assert(views(blocks@) =~= front + call_blocks(views(tool_calls@)).take(
                        i as int,
                    ));
                }
                let r = DomainMessage { role: DomainRole::Assistant, content: blocks };
                assert(r@.content =~= domain_of(message@).content);
                r
            },
            ChatMessage::Tool { tool_call_id, name, content } => {
                let mut blocks: Vec<DomainContentBlock> = Vec::new();
                blocks.push(
                    DomainContentBlock::ToolResult {
                        tool_call_id: tool_call_id.clone(),
                        name: name.clone(),
                        content: content.clone(),
                    },
                );
                let r = DomainMessage { role: DomainRole::Tool, content: blocks };
                assert(r@.content =~= domain_of(message@).content);
                r
            },
        }
    }
}

impl vstd::std_specs::convert::FromSpecImpl<&ChatMessage> for DomainMessage {
    open spec fn obeys_from_spec() -> bool {
        false
    }

    open spec fn from_spec(v: &ChatMessage) -> Self {
        arbitrary()
    }
}

/// The text of the first text block.
pub fn first_text(blocks: &Vec<DomainContentBlock>) -> (r: Option<String>)
    ensures
        crate::text::opt_view(r) == first_text_of(views(blocks@)),
{
    let mut i: usize = 0;
    assert(views(blocks@).skip(0) =~= views(blocks@));
    while i < blocks.len()
        invariant
            i <= blocks@.len(),
            first_text_of(views(blocks@).skip(i as int)) == first_text_of(views(blocks@)),
        decreases blocks@.len() - i,
    {
        proof {
            let rest = views(blocks@).skip(i as int);
            assert(rest[0] == blocks@[i as int]@);
            assert(rest.drop_first() =~= views(blocks@).skip(i + 1));
        }
        if let DomainContentBlock::Text(text) = &blocks[i] {
            return Some(text.clone());
        }
        i += 1;
    }
    None
}

impl From<&DomainMessage> for ChatMessage {
    fn from(message: &DomainMessage) -> (r: Self)
        ensures
            r@ == chat_of(message@),
    {
        match message.role {
            DomainRole::System => match first_text(&message.content) {
                Some(text) => ChatMessage::System(text),
                None => ChatMessage::System(String::new()),
            },
            DomainRole::User => match first_text(&message.content) {
                Some(text) => ChatMessage::User(text),
                None => ChatMessage::User(String::new()),
            },
            DomainRole::Assistant => {
                let mut content = String::new();
                let mut tool_calls: Vec<ToolCall> = Vec::new();
                let mut i: usize = 0;
                assert(views(tool_calls@) =~= Seq::<ToolCallView>::empty());
                while i < message.content.len()
                    invariant
                        i <= message.content@.len(),
                        content@ == texts_of(message@.content.take(i as int)),
                        views(tool_calls@) == calls_of(message@.content.take(i as int)),
                    decreases message.content@.len() - i,
                {
                    proof {
                        let next = message@.content.take(i + 1);
                        assert(next.drop_last() =~= message@.content.take(i as int));
                        assert(next.last() == message.content@[i as int]@);
                    }
                    match &message.content[i] {
                        DomainContentBlock::Text(text) => {
                            content.append(text.as_str());
                        },
                        DomainContentBlock::ToolCall(call) => {
                            let copy = call.clone();
                            proof {
                                views_push(tool_calls@, copy);
                            }
                            tool_calls.push(copy);
                        },
                        DomainContentBlock::ToolResult { tool_call_id, name, content } => {},
                    }
                    i += 1;
                }
                assert(message@.content.take(i as int) =~= message@.content);
                ChatMessage::Assistant { content, tool_calls }
            },
            DomainRole::Tool => {
                let mut i: usize = 0;
                assert(message@.content.skip(0) =~= message@.content);
                while i < message.content.len()
                    invariant
                        message.role == DomainRole::Tool,
                        i <= message.content@.len(),
                        first_result_of(message@.content.skip(i as int)) == first_result_of(
                            message@.content,
                        ),
                    decreases message.content@.len() - i,
                {
                    proof {
                        let rest = message@.content.skip(i as int);
                        assert(rest[0] == message.content@[i as int]@);
                        assert(rest.drop_first() =~= message@.content.skip(i + 1));
                    }
                    if let DomainContentBlock::ToolResult { tool_call_id, name, content } =
                        &message.content[i] {
                        return ChatMessage::Tool {
                            tool_call_id: tool_call_id.clone(),
                            name: name.clone(),
                            content: content.clone(),
                        };
                    }
                    i += 1;
                }
                ChatMessage::Tool {
                    tool_call_id: String::new(),
                    name: String::new(),
                    content: String::new(),
                }
            },
        }
    }
}

impl vstd::std_specs::convert::FromSpecImpl<&DomainMessage> for ChatMessage {
    open spec fn obeys_from_spec() -> bool {
        false
    }

    open spec fn from_spec(v: &DomainMessage) -> Self {
        arbitrary()
    }
}

proof fn lemma_front_and_calls(front: Seq<DomainBlockView>, calls: Seq<ToolCallView>, n: int)
    requires
        0 <= n <= calls.len(),
    ensures
        texts_of(front + call_blocks(calls).take(n)) == texts_of(front),
        calls_of(front + call_blocks(calls).take(n)) == calls_of(front) + calls.take(n),
    decreases n,
{
    let blocks = front + call_blocks(calls).take(n);
    if n == 0 {
        assert(blocks =~= front);
        assert(calls_of(front) + calls.take(0) =~= calls_of(front));
    } else {
        lemma_front_and_calls(front, calls, n - 1);
        assert(blocks.drop_last() =~= front + call_blocks(calls).take(n - 1));
        assert(blocks.last() == DomainBlockView::ToolCall(calls[n - 1]));
        assert(calls_of(front) + calls.take(n) =~= (calls_of(front) + calls.take(n - 1)).push(
            calls[n - 1],
        ));
    }
}

/// A chat message that becomes a domain message and a chat message again is unchanged.
pub proof fn chat_round_trip(message: ChatMessageView)
    ensures
        chat_of(domain_of(message)) == message,
{
    match message {
        ChatMessageView::Assistant { content, tool_calls } => {
            let front = if content.len() > 0 {
                seq![DomainBlockView::Text(content)]
            } else {
                Seq::empty()
            };
            let n = tool_calls.len() as int;
            lemma_front_and_calls(front, tool_calls, n);
            assert(call_blocks(tool_calls).take(n) =~= call_blocks(tool_calls));
            assert(tool_calls.take(n) =~= tool_calls);
            reveal_with_fuel(texts_of, 2);
            reveal_with_fuel(calls_of, 2);
            assert(texts_of(front) =~= content);
            assert(calls_of(front) + tool_calls =~= tool_calls);
        },
        _ => {},
    }
}

} // verus!
