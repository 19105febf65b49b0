//! Comparing a request that was sent with one rebuilt from the session.
//!
//! Neither side holds the text of a message or a credential: only the model, the roles
//! in order, a fingerprint of the tool schemas, and how many messages there are.
use crate::message::ChatMessage;
use crate::message::ChatMessageView;
use crate::provider::ModelRequest;
use crate::text::debug_string;
use crate::text::debug_text;
use crate::text::decimal;
use crate::text::decimal_of;
use crate::text::join;
use crate::text::join_of;
use crate::text::owned;
use crate::text::same;
use crate::text::same_list;
use crate::text::views;
use crate::text::views_push;
use vstd::prelude::*;
use vstd::string::*;

verus! {

/// What is recorded of a request before it is sent.
#[derive(Debug, Clone, PartialEq, Eq)]
pub struct RequestHeader {
    pub model: String,
    pub role_sequence: Vec<String>,
    pub tool_schema_fingerprint: String,
    pub message_count: usize,
}

/// What the session says the request should have been.
#[derive(Debug, Clone, PartialEq, Eq)]
pub struct RequestManifest {
    pub model: String,
    pub role_sequence: Vec<String>,
    pub tool_schema_fingerprint: String,
    pub message_count: usize,
}

/// What both sides describe.
pub struct RequestShape {
    pub model: Seq<char>,
    pub roles: Seq<Seq<char>>,
    pub tools: Seq<char>,
    pub count: int,
}

impl View for RequestHeader {
    type V = RequestShape;

    open spec fn view(&self) -> RequestShape {
        RequestShape {
            model: self.model@,
            roles: views(self.role_sequence@),
            tools: self.tool_schema_fingerprint@,
            count: self.message_count as int,
        }
    }
}

impl View for RequestManifest {
    type V = RequestShape;

    open spec fn view(&self) -> RequestShape {
        RequestShape {
            model: self.model@,
            roles: views(self.role_sequence@),
            tools: self.tool_schema_fingerprint@,
            count: self.message_count as int,
        }
    }
}

/// A field in which the two sides differ.
#[derive(Debug, Clone, PartialEq, Eq)]
pub struct Drift {
    pub field: &'static str,
    pub expected: String,
    pub actual: String,
}

/// What a [`Drift`] says.
pub struct DriftView {
    pub field: Seq<char>,
    pub expected: Seq<char>,
    pub actual: Seq<char>,
}

impl View for Drift {
    type V = DriftView;

    open spec fn view(&self) -> DriftView {
        DriftView { field: self.field@, expected: self.expected@, actual: self.actual@ }
    }
}

/// The name of a message's role.
pub open spec fn role_of(message: ChatMessageView) -> Seq<char> {
    match message {
        ChatMessageView::System(_) => "system"@,
        ChatMessageView::User(_) => "user"@,
        ChatMessageView::Assistant { content, tool_calls } => "assistant"@,
        ChatMessageView::Tool { tool_call_id, name, content } => "tool"@,
    }
}

/// The roles of some messages.
pub open spec fn roles_of(messages: Seq<ChatMessageView>) -> Seq<Seq<char>> {
    Seq::new(messages.len(), |i: int| role_of(messages[i]))
}

impl RequestHeader {
    /// The header of a request.
    pub fn freeze(request: &ModelRequest, tool_schema_fingerprint: &str) -> (r: Self)
        ensures
            r@ == (RequestShape {
                model: request.model@,
                roles: roles_of(views(request.messages@)),
                tools: tool_schema_fingerprint@,
                count: request.messages@.len() as int,
            }),
    {
        let mut roles: Vec<String> = Vec::new();
        let mut i: usize = 0;
        let ghost wanted = roles_of(views(request.messages@));
        assert(views(roles@) =~= wanted.take(0));
        while i < request.messages.len()
            invariant
                i <= request.messages@.len(),
                wanted == roles_of(views(request.messages@)),
                views(roles@) == wanted.take(i as int),
            decreases request.messages@.len() - i,
        {
            let role = match &request.messages[i] {
                ChatMessage::System(_) => owned("system"),
                ChatMessage::User(_) => owned("user"),
                ChatMessage::Assistant { content, tool_calls } => owned("assistant"),
                ChatMessage::Tool { tool_call_id, name, content } => owned("tool"),
            };
            proof {
                views_push(roles@, role);
                assert(wanted[i as int] == role@);
            }
            roles.push(role);
            i += 1;
            assert(views(roles@) =~= wanted.take(i as int));
        }
        assert(wanted.take(i as int) =~= wanted);
        RequestHeader {
            model: request.model.clone(),
            role_sequence: roles,
            tool_schema_fingerprint: owned(tool_schema_fingerprint),
            message_count: request.messages.len(),
        }
    }
}

impl RequestManifest {
    /// The manifest of the given parts.
    pub fn rebuild(
        model: String,
        role_sequence: Vec<String>,
        tool_schema_fingerprint: String,
        message_count: usize,
    ) -> (r: Self)
        ensures
            r@ == (RequestShape {
                model: model@,
                roles: views(role_sequence@),
                tools: tool_schema_fingerprint@,
                count: message_count as int,
            }),
    {
        RequestManifest { model, role_sequence, tool_schema_fingerprint, message_count }
    }
}

/// A list of texts, each in quotes, in brackets.
pub open spec fn debug_list(list: Seq<Seq<char>>) -> Seq<char> {
    "["@ + join_of(list.map_values(|text: Seq<char>| debug_text(text)), ", "@) + "]"@
}

fn debug_list_text(list: &Vec<String>) -> (r: String)
    ensures
        r@ == debug_list(views(list@)),
{
    let ghost shown = views(list@).map_values(|text: Seq<char>| debug_text(text));
    let mut parts: Vec<String> = Vec::new();
    let mut i: usize = 0;
    assert(views(parts@) =~= shown.take(0));
    while i < list.len()
        invariant
            i <= list@.len(),
            shown == views(list@).map_values(|text: Seq<char>| debug_text(text)),
            views(parts@) == shown.take(i as int),
        decreases list@.len() - i,
    {
        let part = debug_string(list[i].as_str());
        proof {
            views_push(parts@, part);
        }
        parts.push(part);
        assert(views(parts@) =~= shown.take(i + 1));
        i += 1;
    }
    assert(shown.take(i as int) =~= shown);
    let inner = join(&parts, ", ");
    owned("[").concat(inner.as_str()).concat("]")
}

/// The drift of one field, where the two sides differ in it.
pub open spec fn drift_of(
    differs: bool,
    field: Seq<char>,
    expected: Seq<char>,
    actual: Seq<char>,
) -> Seq<DriftView> {
    if differs {
        seq![DriftView { field, expected, actual }]
    } else {
        Seq::empty()
    }
}

/// The fields in which `expected` and `actual` differ, in a fixed order.
pub open spec fn drifts_of(expected: RequestShape, actual: RequestShape) -> Seq<DriftView> {
    drift_of(expected.model != actual.model, "model"@, expected.model, actual.model) + drift_of(
        expected.roles != actual.roles,
        "role_sequence"@,
        debug_list(expected.roles),
        debug_list(actual.roles),
    ) + drift_of(
        expected.tools != actual.tools,
        "tool_schema_fingerprint"@,
        expected.tools,
        actual.tools,
    ) + drift_of(
        expected.count != actual.count,
        "message_count"@,
        decimal_of(expected.count as nat),
        decimal_of(actual.count as nat),
    )
}

fn push_drift(
    drifts: &mut Vec<Drift>,
    differs: bool,
    field: &'static str,
    expected: String,
    actual: String,
)
    ensures
        views(final(drifts)@) == views(old(drifts)@) + drift_of(
            differs,
            field@,
            expected@,
            actual@,
        ),
{
    if differs {
        let drift = Drift { field, expected, actual };
        proof {
            views_push(drifts@, drift);
            assert(views(drifts@).push(drift@) =~= views(drifts@) + seq![drift@]);
        }
        drifts.push(drift);
    } else {
        assert(views(drifts@) + Seq::<DriftView>::empty() =~= views(drifts@));
    }
}

/// The fields in which a header differs from its manifest; none where they agree.
pub fn compare(manifest: &RequestManifest, header: &RequestHeader) -> (r: Vec<Drift>)
    ensures
        views(r@) == drifts_of(manifest@, header@),
{
    let mut drifts: Vec<Drift> = Vec::new();
    assert(views(drifts@) =~= Seq::<DriftView>::empty());
    push_drift(
        &mut drifts,
        !same(manifest.model.as_str(), header.model.as_str()),
        "model",
        manifest.model.clone(),
        header.model.clone(),
    );
    push_drift(
        &mut drifts,
        !same_list(&manifest.role_sequence, &header.role_sequence),
        "role_sequence",
        debug_list_text(&manifest.role_sequence),
        debug_list_text(&header.role_sequence),
    );
    push_drift(
        &mut drifts,
        !same(
            manifest.tool_schema_fingerprint.as_str(),
            header.tool_schema_fingerprint.as_str(),
        ),
        "tool_schema_fingerprint",
        manifest.tool_schema_fingerprint.clone(),
        header.tool_schema_fingerprint.clone(),
    );
    push_drift(
        &mut drifts,
        manifest.message_count != header.message_count,
        "message_count",
        decimal(manifest.message_count as u128),
        decimal(header.message_count as u128),
    );
    assert(views(drifts@) =~= drifts_of(manifest@, header@));
    drifts
}

/// What neither a header nor a manifest holds, in words.
pub const SCRUB_POLICY: &'static str = "drop-body;drop-secret;keep-role-sequence";

/// There is no drift exactly where the two sides agree.
pub proof fn no_drift_means_agreement(expected: RequestShape, actual: RequestShape)
    ensures
        (drifts_of(expected, actual).len() == 0) == (expected == actual),
{
}

/// A header depends on the messages through their roles and number alone: requests that
/// differ in nothing but the texts of their messages have the same header.
pub proof fn header_holds_no_text(a: Seq<ChatMessageView>, b: Seq<ChatMessageView>)
    requires
        a.len() == b.len(),
        forall|i: int| 0 <= i < a.len() ==> role_of(#[trigger] a[i]) == role_of(b[i]),
    ensures
        roles_of(a) == roles_of(b),
{
    assert(roles_of(a) =~= roles_of(b));
}

} // verus!
