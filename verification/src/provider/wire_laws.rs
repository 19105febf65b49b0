//! What is written to a server and read from it, stated of whole requests and streams.

use crate::agent::turn_laws::said;
use crate::agent::turn_laws::thought;
use crate::context_laws::calls_of;
use crate::context_laws::text_of;
use crate::json::JsonModel;
use crate::json::member_of;
use crate::message::ChatMessageView;
use crate::message::ToolCallView;
use crate::provider::FinishReason;
use crate::provider::ModelRequest;
use crate::provider::ProviderErrorView;
use crate::provider::ProviderEventView;
use crate::provider::openai_compat::Attempts;
use crate::provider::openai_compat::ConsumeResult;
use crate::provider::openai_compat::PendingView;
use crate::provider::openai_compat::SseChoice;
use crate::provider::openai_compat::SseChunk;
use crate::provider::openai_compat::SseToolCallDelta;
use crate::provider::openai_compat::StreamView;
use crate::provider::openai_compat::address_of;
use crate::provider::openai_compat::backoff_of;
use crate::provider::openai_compat::body_json;
use crate::provider::openai_compat::broken_stream;
use crate::provider::openai_compat::choice_events;
use crate::provider::openai_compat::choices_events;
use crate::provider::openai_compat::choices_state;
use crate::provider::openai_compat::chunk_state;
use crate::provider::openai_compat::classified;
use crate::provider::openai_compat::delta_arguments;
use crate::provider::openai_compat::delta_events;
use crate::provider::openai_compat::delta_index;
use crate::provider::openai_compat::delta_name;
use crate::provider::openai_compat::delta_pending;
use crate::provider::openai_compat::deltas_events;
use crate::provider::openai_compat::deltas_pending;
use crate::provider::openai_compat::finish_reason_of;
use crate::provider::openai_compat::finished;
use crate::provider::openai_compat::jitter_of;
use crate::provider::openai_compat::may_ask_again;
use crate::provider::openai_compat::message_json;
use crate::provider::openai_compat::named_calls;
use crate::provider::openai_compat::refusal_text;
use crate::provider::openai_compat::server_wait;
use crate::provider::openai_compat::trim_slashes;
use crate::provider::request_replay::role_of;
use crate::provider::request_replay::roles_of;
use crate::text::decimal_of;
use crate::text::has_prefix;
use crate::text::has_suffix;
use crate::text::views;
use vstd::prelude::*;
use vstd::string::*;

verus! {

proof fn lemma_member_names()
    ensures
        "role"@ != "content"@,
        "role"@ != "tool_calls"@,
        "role"@ != "tool_call_id"@,
        "content"@ != "tool_calls"@,
        "content"@ != "tool_call_id"@,
        "tool_calls"@ != "tool_call_id"@,
        "id"@ != "type"@,
        "id"@ != "function"@,
        "type"@ != "function"@,
        "name"@ != "arguments"@,
        "name"@ != "description"@,
        "name"@ != "parameters"@,
        "description"@ != "parameters"@,
{
    reveal_strlit("role");
    assert("role"@.len() == 4);
    reveal_strlit("content");
    assert("content"@.len() == 7);
    reveal_strlit("tool_calls");
    assert("tool_calls"@.len() == 10);
    reveal_strlit("tool_call_id");
    assert("tool_call_id"@.len() == 12);
    reveal_strlit("id");
    assert("id"@.len() == 2);
    reveal_strlit("type");
    assert("type"@.len() == 4);
    reveal_strlit("function");
    assert("function"@.len() == 8);
    reveal_strlit("name");
    assert("name"@.len() == 4);
    reveal_strlit("arguments");
    assert("arguments"@.len() == 9);
    reveal_strlit("description");
    assert("description"@.len() == 11);
    reveal_strlit("parameters");
    assert("parameters"@.len() == 10);
    assert("tool_calls"@.len() != "tool_call_id"@.len());
    assert("role"@[0] != "type"@[0]);
    assert("name"@[0] != "role"@[0]);
}

proof fn lemma_body_names()
    ensures
        "model"@ != "messages"@,
        "model"@ != "tools"@,
        "model"@ != "reasoning"@,
        "model"@ != "max_tokens"@,
        "model"@ != "stream"@,
        "model"@ != "stream_options"@,
        "messages"@ != "tools"@,
        "messages"@ != "reasoning"@,
        "messages"@ != "max_tokens"@,
        "messages"@ != "stream"@,
        "messages"@ != "stream_options"@,
        "tools"@ != "reasoning"@,
        "tools"@ != "max_tokens"@,
        "tools"@ != "stream"@,
        "tools"@ != "stream_options"@,
        "reasoning"@ != "max_tokens"@,
        "reasoning"@ != "stream"@,
        "reasoning"@ != "stream_options"@,
        "max_tokens"@ != "stream"@,
        "max_tokens"@ != "stream_options"@,
        "stream"@ != "stream_options"@,
{
    reveal_strlit("model");
    assert("model"@.len() == 5);
    reveal_strlit("messages");
    assert("messages"@.len() == 8);
    reveal_strlit("tools");
    assert("tools"@.len() == 5);
    reveal_strlit("reasoning");
    assert("reasoning"@.len() == 9);
    reveal_strlit("max_tokens");
    assert("max_tokens"@.len() == 10);
    reveal_strlit("stream");
    assert("stream"@.len() == 6);
    reveal_strlit("stream_options");
    assert("stream_options"@.len() == 14);
    assert("model"@[0] != "tools"@[0]);
}

proof fn lemma_roles_differ()
    ensures
        "system"@ != "user"@,
        "system"@ != "assistant"@,
        "system"@ != "tool"@,
        "user"@ != "assistant"@,
        "user"@ != "tool"@,
        "assistant"@ != "tool"@,
{
    reveal_strlit("system");
    assert("system"@.len() == 6);
    reveal_strlit("user");
    assert("user"@.len() == 4);
    reveal_strlit("assistant");
    assert("assistant"@.len() == 9);
    reveal_strlit("tool");
    assert("tool"@.len() == 4);
    assert("user"@[0] != "tool"@[0]);
}

/// A message is written under the role of whoever speaks in it, with its text as it is. The
/// result of a call is written with the call's identifier, and no other message has one.
pub proof fn a_message_is_written_as_it_is(message: ChatMessageView)
    ensures
        ({
            let written = message_json(message);
            &&& member_of(written, "role"@) == Some(
                JsonModel::Text(
                    match message {
                        ChatMessageView::System(_) => "system"@,
                        ChatMessageView::User(_) => "user"@,
                        ChatMessageView::Assistant { content, tool_calls } => "assistant"@,
                        ChatMessageView::Tool { tool_call_id, name, content } => "tool"@,
                    },
                ),
            )
            &&& member_of(written, "content"@) == Some(JsonModel::Text(text_of(message)))
            &&& member_of(written, "tool_call_id"@) == match message {
                ChatMessageView::Tool { tool_call_id, name, content } => Some(
                    JsonModel::Text(tool_call_id),
                ),
                _ => None,
            }
            &&& (member_of(written, "tool_calls"@) is Some) == (calls_of(message).len() > 0)
        }),
{
    lemma_member_names();
}

/// A message is written under the role that the header of the request has for it.
pub proof fn roles_are_those_of_the_header(message: ChatMessageView)
    ensures
        member_of(message_json(message), "role"@) == Some(JsonModel::Text(role_of(message))),
{
    a_message_is_written_as_it_is(message);
}

/// The calls of an answer are written in their order, each with its identifier, its name and
/// its arguments.
pub proof fn calls_are_written_as_they_are(
    content: Seq<char>,
    calls: Seq<ToolCallView>,
    k: int,
)
    requires
        0 <= k < calls.len(),
    ensures
        ({
            let written = member_of(
                message_json(ChatMessageView::Assistant { content, tool_calls: calls }),
                "tool_calls"@,
            );
            let call = written->0->Array_0[k];
            let function = member_of(call, "function"@);
            &&& written is Some
            &&& written->0 is Array
            &&& written->0->Array_0.len() == calls.len()
            &&& member_of(call, "id"@) == Some(JsonModel::Text(calls[k].provider_id))
            &&& member_of(call, "type"@) == Some(JsonModel::Text("function"@))
            &&& function is Some
            &&& member_of(function->0, "name"@) == Some(JsonModel::Text(calls[k].name))
            &&& member_of(function->0, "arguments"@) == Some(
                JsonModel::Text(calls[k].arguments),
            )
        }),
{
    lemma_member_names();
}

/// Messages that differ in who speaks, in what is said, in the calls or in the call that is
/// answered are written differently.
pub proof fn messages_are_told_apart(a: ChatMessageView, b: ChatMessageView)
    requires
        message_json(a) == message_json(b),
    ensures
        a is System == b is System,
        a is User == b is User,
        a is Assistant == b is Assistant,
        a is Tool == b is Tool,
        text_of(a) == text_of(b),
        a is Tool ==> a->tool_call_id == b->tool_call_id,
        calls_of(a).len() == calls_of(b).len(),
        forall|k: int|
            0 <= k < calls_of(a).len() ==> (#[trigger] calls_of(a)[k]).provider_id == calls_of(
                b,
            )[k].provider_id && calls_of(a)[k].name == calls_of(b)[k].name && calls_of(
                a,
            )[k].arguments == calls_of(b)[k].arguments,
{
    a_message_is_written_as_it_is(a);
    a_message_is_written_as_it_is(b);
    lemma_roles_differ();
    if calls_of(a).len() > 0 && calls_of(b).len() > 0 {
        calls_are_written_as_they_are(text_of(a), calls_of(a), 0);
        calls_are_written_as_they_are(text_of(b), calls_of(b), 0);
        assert forall|k: int| 0 <= k < calls_of(a).len() implies (#[trigger] calls_of(
            a,
        )[k]).provider_id == calls_of(b)[k].provider_id && calls_of(a)[k].name == calls_of(
            b,
        )[k].name && calls_of(a)[k].arguments == calls_of(b)[k].arguments by {
            calls_are_written_as_they_are(text_of(a), calls_of(a), k);
            calls_are_written_as_they_are(text_of(b), calls_of(b), k);
        }
    }
}

/// A request is written with its model, its messages in their order, and the wish for a
/// stream that ends with what was used; and with tools, reasoning and a limit where it has
/// them, and not otherwise.
pub proof fn a_request_is_written_as_it_is(request: ModelRequest, k: int)
    ensures
        ({
            let body = body_json(request);
            let messages = member_of(body, "messages"@);
            let tools = member_of(body, "tools"@);
            let options = member_of(body, "stream_options"@);
            &&& member_of(body, "model"@) == Some(JsonModel::Text(request.model@))
            &&& messages is Some
            &&& messages->0 is Array
            &&& messages->0->Array_0.len() == request.messages@.len()
            &&& 0 <= k < request.messages@.len() ==> {
                let written = messages->0->Array_0[k];
                &&& member_of(written, "content"@) == Some(
                    JsonModel::Text(text_of(request.messages@[k]@)),
                )
                &&& member_of(written, "role"@) == Some(
                    JsonModel::Text(roles_of(views(request.messages@))[k]),
                )
            }
            &&& (tools is Some) == (request.tools@.len() > 0)
            &&& request.tools@.len() > 0 ==> tools->0 is Array && tools->0->Array_0.len()
                == request.tools@.len()
            &&& 0 <= k < request.tools@.len() ==> {
                let function = member_of(tools->0->Array_0[k], "function"@);
                &&& function is Some
                &&& member_of(function->0, "name"@) == Some(
                    JsonModel::Text(request.tools@[k]@.name),
                )
                &&& member_of(function->0, "description"@) == Some(
                    JsonModel::Text(request.tools@[k]@.description),
                )
                &&& member_of(function->0, "parameters"@) == Some(request.tools@[k]@.parameters)
            }
            &&& member_of(body, "reasoning"@) == match request.reasoning {
                Some(text) => Some(JsonModel::Text(text@)),
                None => None,
            }
            &&& member_of(body, "max_tokens"@) == match request.max_output_tokens {
                Some(n) => Some(JsonModel::Number(decimal_of(n as nat))),
                None => None,
            }
            &&& member_of(body, "stream"@) == Some(JsonModel::Bool(true))
            &&& options is Some
            &&& member_of(options->0, "include_usage"@) == Some(JsonModel::Bool(true))
        }),
{
    lemma_body_names();
    lemma_member_names();
    if 0 <= k < request.messages@.len() {
        a_message_is_written_as_it_is(request.messages@[k]@);
    }
}

/// The end of an address has no slash, and nothing but slashes is cut off.
pub proof fn only_slashes_are_cut_off(s: Seq<char>)
    ensures
        trim_slashes(s).len() <= s.len(),
        s.subrange(0, trim_slashes(s).len() as int) == trim_slashes(s),
        trim_slashes(s).len() > 0 ==> trim_slashes(s).last() != '/',
        forall|i: int| trim_slashes(s).len() <= i < s.len() ==> #[trigger] s[i] == '/',
    decreases s.len(),
{
    if s.len() > 0 && s.last() == '/' {
        only_slashes_are_cut_off(s.drop_last());
        let r = trim_slashes(s);
        assert(s.subrange(0, r.len() as int) =~= s.drop_last().subrange(0, r.len() as int));
        assert forall|i: int| r.len() <= i < s.len() implies #[trigger] s[i] == '/' by {
            if i < s.len() - 1 {
                assert(s.drop_last()[i] == s[i]);
            }
        }
    } else {
        assert(s.subrange(0, s.len() as int) =~= s);
    }
}

/// The text that choices bring.
pub open spec fn texts(choices: Seq<SseChoice>) -> Seq<char>
    decreases choices.len(),
{
    if choices.len() == 0 {
        Seq::empty()
    } else {
        texts(choices.drop_last()) + match choices.last().delta.content {
            Some(text) => text@,
            None => Seq::empty(),
        }
    }
}

/// The reasoning that choices bring.
pub open spec fn thoughts(choices: Seq<SseChoice>) -> Seq<char>
    decreases choices.len(),
{
    if choices.len() == 0 {
        Seq::empty()
    } else {
        thoughts(choices.drop_last()) + match choices.last().delta.reasoning_content {
            Some(text) => text@,
            None => Seq::empty(),
        }
    }
}

proof fn lemma_said_add(a: Seq<ProviderEventView>, b: Seq<ProviderEventView>)
    ensures
        said(a + b) == said(a) + said(b),
        thought(a + b) == thought(a) + thought(b),
    decreases b.len(),
{
    if b.len() == 0 {
        assert(a + b =~= a);
        assert(said(a) + said(b) =~= said(a));
        assert(thought(a) + thought(b) =~= thought(a));
    } else {
        assert((a + b).drop_last() =~= a + b.drop_last());
        lemma_said_add(a, b.drop_last());
        assert(said(a + b) =~= said(a) + said(b));
        assert(thought(a + b) =~= thought(a) + thought(b));
    }
}

proof fn lemma_said_nothing(events: Seq<ProviderEventView>)
    requires
        forall|i: int|
            0 <= i < events.len() ==> !((#[trigger] events[i]) is TextDelta)
                && !(events[i] is ReasoningDelta),
    ensures
        said(events).len() == 0,
        thought(events).len() == 0,
    decreases events.len(),
{
    if events.len() > 0 {
        let rest = events.drop_last();
        assert forall|i: int| 0 <= i < rest.len() implies !((#[trigger] rest[i]) is TextDelta)
            && !(rest[i] is ReasoningDelta) by {
            assert(rest[i] == events[i]);
        }
        lemma_said_nothing(rest);
        assert(!(events[events.len() - 1] is TextDelta));
    }
}

proof fn lemma_said_one(event: ProviderEventView)
    ensures
        said(seq![event]) == match event {
            ProviderEventView::TextDelta(text) => text,
            _ => Seq::empty(),
        },
        thought(seq![event]) == match event {
            ProviderEventView::ReasoningDelta(text) => text,
            _ => Seq::empty(),
        },
{
    let one = seq![event];
    assert(one.drop_last() =~= Seq::<ProviderEventView>::empty());
    assert(said(one.drop_last()) =~= Seq::<char>::empty());
    assert(thought(one.drop_last()) =~= Seq::<char>::empty());
    assert(said(one) =~= match event {
        ProviderEventView::TextDelta(text) => text,
        _ => Seq::empty(),
    });
    assert(thought(one) =~= match event {
        ProviderEventView::ReasoningDelta(text) => text,
        _ => Seq::empty(),
    });
}

proof fn lemma_deltas_are_no_text(pending: Seq<PendingView>, calls: Seq<SseToolCallDelta>)
    ensures
        forall|i: int|
            0 <= i < deltas_events(pending, calls).len() ==> !((#[trigger] deltas_events(
                pending,
                calls,
            )[i]) is TextDelta) && !(deltas_events(pending, calls)[i] is ReasoningDelta),
    decreases calls.len(),
{
    if calls.len() > 0 {
        let rest = calls.drop_last();
        lemma_deltas_are_no_text(pending, rest);
        let a = deltas_events(pending, rest);
        let b = delta_events(deltas_pending(pending, rest), calls.last());
        assert forall|i: int| 0 <= i < (a + b).len() implies !((#[trigger] (a + b)[i]) is TextDelta)
            && !((a + b)[i] is ReasoningDelta) by {
            if i < a.len() {
                assert((a + b)[i] == a[i]);
            } else {
                assert((a + b)[i] == b[i - a.len()]);
            }
        }
    }
}

proof fn lemma_choice_says(state: StreamView, choice: SseChoice)
    ensures
        said(choice_events(state, choice)) == match choice.delta.content {
            Some(text) => text@,
            None => Seq::empty(),
        },
        thought(choice_events(state, choice)) == match choice.delta.reasoning_content {
            Some(text) => text@,
            None => Seq::empty(),
        },
{
    let none = Seq::<ProviderEventView>::empty();
    let text = if crate::provider::openai_compat::says_something(choice.delta.content) {
        seq![ProviderEventView::TextDelta(choice.delta.content->0@)]
    } else {
        none
    };
    let reasoning = if crate::provider::openai_compat::says_something(
        choice.delta.reasoning_content,
    ) {
        seq![ProviderEventView::ReasoningDelta(choice.delta.reasoning_content->0@)]
    } else {
        none
    };
    let calls = deltas_events(state.pending, choice.delta.tool_calls@);
    assert(choice_events(state, choice) =~= text + reasoning + calls);
    lemma_said_add(text + reasoning, calls);
    lemma_said_add(text, reasoning);
    lemma_deltas_are_no_text(state.pending, choice.delta.tool_calls@);
    lemma_said_nothing(calls);
    lemma_said_nothing(none);
    if text.len() > 0 {
        lemma_said_one(text[0]);
    }
    if reasoning.len() > 0 {
        lemma_said_one(reasoning[0]);
    }
    assert(said(choice_events(state, choice)) =~= match choice.delta.content {
        Some(text) => text@,
        None => Seq::empty(),
    });
    assert(thought(choice_events(state, choice)) =~= match choice.delta.reasoning_content {
        Some(text) => text@,
        None => Seq::empty(),
    });
}

/// All the text and all the reasoning that a stream brings are passed on, in their order.
pub proof fn what_a_stream_says_is_passed_on(state: StreamView, choices: Seq<SseChoice>)
    ensures
        said(choices_events(state, choices)) == texts(choices),
        thought(choices_events(state, choices)) == thoughts(choices),
    decreases choices.len(),
{
    if choices.len() > 0 {
        let rest = choices.drop_last();
        what_a_stream_says_is_passed_on(state, rest);
        lemma_said_add(
            choices_events(state, rest),
            choice_events(choices_state(state, rest), choices.last()),
        );
        lemma_choice_says(choices_state(state, rest), choices.last());
    }
}

/// The position of the call that a part belongs to: the first where none is given.
pub open spec fn belongs_to(call: SseToolCallDelta) -> int {
    match call.index {
        Some(index) => index as int,
        None => 0,
    }
}

/// The arguments that parts bring for the call at position `k`.
pub open spec fn arguments_for(calls: Seq<SseToolCallDelta>, k: int) -> Seq<char>
    decreases calls.len(),
{
    if calls.len() == 0 {
        Seq::empty()
    } else {
        arguments_for(calls.drop_last(), k) + if belongs_to(calls.last()) == k
            && calls.last().function is Some && calls.last().function->0.arguments is Some {
            calls.last().function->0.arguments->0@
        } else {
            Seq::empty()
        }
    }
}

/// A part of a call goes to the call at its position and to no other: its arguments are added
/// there, and its name and identifier take the place of what was there.
pub proof fn a_part_goes_to_its_call(pending: Seq<PendingView>, call: SseToolCallDelta, k: int)
    requires
        0 <= k,
    ensures
        ({
            let after = delta_pending(pending, call);
            let at = belongs_to(call);
            &&& after.len() >= pending.len()
            &&& at < after.len()
            &&& k < pending.len() && k != at ==> after[k] == pending[k]
            &&& pending.len() <= k < after.len() && k != at ==> after[k].name.len() == 0
                && after[k].arguments.len() == 0 && after[k].provider_id is None
            &&& call.id is Some ==> after[at].provider_id == Some(call.id->0@)
            &&& call.id is None && at < pending.len() ==> after[at].provider_id
                == pending[at].provider_id
            &&& call.function is Some && call.function->0.name is Some ==> after[at].name
                == call.function->0.name->0@
            &&& (call.function is None || call.function->0.name is None) && at < pending.len()
                ==> after[at].name == pending[at].name
        }),
{
}

/// The arguments of a call add up from all of its parts, in their order.
pub proof fn arguments_add_up(pending: Seq<PendingView>, calls: Seq<SseToolCallDelta>, k: int)
    requires
        0 <= k < pending.len(),
    ensures
        deltas_pending(pending, calls).len() >= pending.len(),
        deltas_pending(pending, calls)[k].arguments == pending[k].arguments + arguments_for(
            calls,
            k,
        ),
    decreases calls.len(),
{
    if calls.len() == 0 {
        assert(pending[k].arguments + arguments_for(calls, k) =~= pending[k].arguments);
    } else {
        let rest = calls.drop_last();
        arguments_add_up(pending, rest, k);
        let before = deltas_pending(pending, rest);
        a_part_goes_to_its_call(before, calls.last(), k);
        assert(deltas_pending(pending, calls)[k].arguments =~= pending[k].arguments
            + arguments_for(calls, k));
    }
}

/// Of the calls that a stream began, those with a name are kept, all of them and in their
/// order.
pub proof fn named_calls_are_kept(pending: Seq<PendingView>, call: PendingView)
    ensures
        named_calls(pending.push(call)) == if call.name.len() > 0 {
            named_calls(pending).push(call)
        } else {
            named_calls(pending)
        },
        named_calls(Seq::<PendingView>::empty()).len() == 0,
        (forall|i: int| 0 <= i < pending.len() ==> (#[trigger] pending[i]).name.len() > 0)
            ==> named_calls(pending) == pending,
    decreases pending.len(),
{
    assert(pending.push(call).drop_last() =~= pending);
    if forall|i: int| 0 <= i < pending.len() ==> (#[trigger] pending[i]).name.len() > 0 {
        if pending.len() > 0 {
            let rest = pending.drop_last();
            assert forall|i: int| 0 <= i < rest.len() implies (
            #[trigger] rest[i]).name.len() > 0 by {
                assert(rest[i] == pending[i]);
            }
            named_calls_are_kept(rest, pending.last());
            assert(pending[pending.len() - 1].name.len() > 0);
            assert(named_calls(pending) =~= pending);
        } else {
            assert(named_calls(pending) =~= pending);
        }
    }
}

/// A stream that came to its end gives back the calls that it brought, each with its
/// identifier, name and arguments, what was used, and why the model stopped.
pub proof fn a_stream_gives_its_calls(state: StreamView, saw_done: bool, result: ConsumeResult)
    requires
        finished(state, saw_done, result),
        result is Complete,
    ensures
        saw_done || state.finish_reason is Some,
        ({
            let response = result->Complete_0;
            let calls = named_calls(state.pending);
            &&& response.usage == state.usage
            &&& state.finish_reason is Some ==> response.finish_reason == state.finish_reason->0
            &&& state.finish_reason is None ==> response.finish_reason == FinishReason::Error
            &&& response.tool_calls@.len() == calls.len()
            &&& forall|i: int|
                0 <= i < calls.len() ==> (#[trigger] response.tool_calls@[i])@.name
                    == calls[i].name && response.tool_calls@[i]@.arguments == calls[i].arguments
                    && (calls[i].provider_id is Some ==> response.tool_calls@[i]@.provider_id
                    == calls[i].provider_id->0)
        }),
{
}

/// A stream that broke off may be asked for again where it had brought nothing, and only
/// there: what was heard is not to be heard twice.
pub proof fn only_silence_is_asked_again(state: StreamView, saw_done: bool, result: ConsumeResult)
    requires
        finished(state, saw_done, result),
        result is Failed,
    ensures
        result->Failed_retryable ==> !state.received_any && !saw_done && state.finish_reason
            is None,
        !saw_done && state.finish_reason is None ==> result->Failed_retryable
            == !state.received_any,
        !saw_done && state.finish_reason is None && state.received_any ==> result->error@
            is StreamInterrupted,
        !saw_done && state.finish_reason is None && !state.received_any ==> result->error@
            is Connection,
        saw_done || state.finish_reason is Some ==> result->error@ is Protocol,
{
}

/// What a stream used is what it said last, and a stream that says nothing of it used what
/// it had used.
pub proof fn the_last_report_counts(state: StreamView, chunk: SseChunk)
    ensures
        chunk.usage is None ==> chunk_state(state, chunk).usage == choices_state(
            state,
            chunk.choices@,
        ).usage,
        chunk.usage is Some ==> {
            let told = chunk.usage->0;
            let usage = chunk_state(state, chunk).usage;
            &&& usage.input_tokens == if told.prompt_tokens is Some {
                told.prompt_tokens->0
            } else {
                0
            }
            &&& usage.output_tokens == if told.completion_tokens is Some {
                told.completion_tokens->0
            } else {
                0
            }
            &&& told.prompt_tokens_details is Some
                && told.prompt_tokens_details->0.cached_tokens is Some ==> usage.cache_read_tokens
                == told.prompt_tokens_details->0.cached_tokens->0
            &&& told.prompt_tokens_details is None
                || told.prompt_tokens_details->0.cached_tokens is None ==> usage.cache_read_tokens
                == 0
        },
{
}

/// What a stream used stays until it is told anew.
pub proof fn usage_stays(state: StreamView, choices: Seq<SseChoice>)
    ensures
        choices_state(state, choices).usage == state.usage,
    decreases choices.len(),
{
    if choices.len() > 0 {
        usage_stays(state, choices.drop_last());
    }
}

/// Why a model stopped is told by the words of the protocol, and anything else is an error.
pub proof fn why_a_model_stopped(reason: Seq<char>)
    ensures
        (finish_reason_of(reason) == FinishReason::Stop) == (reason == "stop"@),
        (finish_reason_of(reason) == FinishReason::ToolCalls) == (reason == "tool_calls"@ || reason
            == "function_calls"@),
        (finish_reason_of(reason) == FinishReason::Length) == (reason == "length"@),
        (finish_reason_of(reason) == FinishReason::ContentFilter) == (reason
            == "content_filter"@),
{
    reveal_strlit("stop");
    assert("stop"@.len() == 4);
    reveal_strlit("tool_calls");
    assert("tool_calls"@.len() == 10);
    reveal_strlit("function_calls");
    assert("function_calls"@.len() == 14);
    reveal_strlit("length");
    assert("length"@.len() == 6);
    reveal_strlit("content_filter");
    assert("content_filter"@.len() == 14);
    assert("function_calls"@[0] != "content_filter"@[0]);
}

/// A stream that broke off is an interruption where something of it was heard, and no
/// connection where nothing was; the words stay.
pub proof fn how_a_stream_broke(message: Seq<char>)
    ensures
        broken_stream(true, message) == ProviderErrorView::StreamInterrupted(message),
        broken_stream(false, message) == ProviderErrorView::Connection(message),
{
}

/// A request is tried four times at most, and not again once a minute was waited.
pub proof fn attempts_come_to_an_end(attempts: Attempts, wait: u128)
    requires
        attempts.wf(),
        attempts.retry_wait + wait <= u128::MAX,
    ensures
        attempts.attempt >= 3 ==> attempts.spent(),
        attempts.retry_wait >= 60_000_000_000 ==> attempts.spent(),
        attempts.attempt < 3 && attempts.retry_wait < 60_000_000_000 ==> !attempts.spent(),
        attempts.after(wait).attempt == attempts.attempt + 1,
        attempts.after(wait).retry_wait == attempts.retry_wait + wait,
{
}

/// A wait is twice the one before it, from half a second on and up to four, and never shorter
/// than what the server asks for.
pub proof fn waits_grow_and_heed_the_server(attempt: u32, retry_after: Option<u128>, jitter: u32)
    ensures
        backoff_of(0, None, 100_000) == 500_000_000,
        attempt < 3 ==> backoff_of((attempt + 1) as u32, None, 100_000) == 2 * backoff_of(
            attempt,
            None,
            100_000,
        ),
        attempt >= 3 ==> backoff_of(attempt, None, 100_000) == 4_000_000_000,
        retry_after is Some ==> backoff_of(attempt, retry_after, jitter) >= retry_after->0,
        backoff_of(attempt, retry_after, jitter) >= backoff_of(attempt, None, jitter),
        retry_after is None || retry_after->0 <= backoff_of(attempt, None, jitter) ==> backoff_of(
            attempt,
            retry_after,
            jitter,
        ) == backoff_of(attempt, None, jitter),
        retry_after is Some && retry_after->0 >= backoff_of(attempt, None, jitter) ==> backoff_of(
            attempt,
            retry_after,
            jitter,
        ) == retry_after->0,
        jitter >= 100_000 ==> backoff_of(attempt, None, jitter) >= backoff_of(
            attempt,
            None,
            100_000,
        ),
{
    assert(500_000_000 * 1 * 100_000 / 100_000 == 500_000_000);
    let base = 500_000_000 * crate::provider::openai_compat::doubling(attempt);
    if jitter >= 100_000 {
        assert(base * jitter / 100_000 >= base * 100_000 / 100_000) by (nonlinear_arith)
            requires
                base >= 0,
                jitter >= 100_000,
        ;
    }
}

/// What a server asks for in seconds is waited for in full.
pub proof fn seconds_are_waited_in_full(seconds: u64)
    ensures
        server_wait(Some(seconds)) is Some,
        server_wait(Some(seconds))->0 == seconds * 1_000_000_000,
        server_wait(None) is None,
{
}

/// A failed request is told apart by its words: a cancellation, a refused key, a full server,
/// or no connection; and but for the first the words stay.
pub proof fn errors_are_told_apart(message: Seq<char>, attempt: u32)
    ensures
        (classified(message, attempt) is Cancelled) == (message == "cancelled"@),
        message != "cancelled"@ ==> (classified(message, attempt) is Auth) == has_prefix(
            message,
            "auth"@,
        ),
        message != "cancelled"@ && !has_prefix(message, "auth"@) ==> (classified(message, attempt)
            is RateLimited) == has_prefix(message, "http 429"@),
        match classified(message, attempt) {
            ProviderErrorView::Cancelled => true,
            ProviderErrorView::Auth(text) => text == message,
            ProviderErrorView::RateLimited(text) => has_suffix(text, message),
            ProviderErrorView::Connection(text) => has_suffix(text, message),
            _ => false,
        },
{
    let text = crate::provider::openai_compat::attempt_text(attempt, message);
    assert(text.subrange(text.len() - message.len(), text.len() as int) =~= message);
}

/// A refusal for want of a key does not repeat the body, and any other begins with its start,
/// and says the status.
pub proof fn refusals_keep_secrets(status: u16, body: Seq<char>, other: Seq<char>)
    ensures
        status == 401 || status == 403 ==> refusal_text(status, body) == refusal_text(
            status,
            other,
        ) && has_prefix(refusal_text(status, body), "auth"@),
        status != 401 && status != 403 && body.len() <= 300 ==> has_suffix(
            refusal_text(status, body),
            body,
        ),
        status != 401 && status != 403 ==> has_prefix(
            refusal_text(status, body),
            "http "@ + decimal_of(status as nat),
        ),
{
    reveal_strlit("auth (");
    reveal_strlit("auth");
    let text = refusal_text(status, body);
    if status == 401 || status == 403 {
        assert(text.subrange(0, 4) =~= "auth"@);
    } else {
        let front = "http "@ + decimal_of(status as nat);
        assert(text.subrange(0, front.len() as int) =~= front);
        if body.len() <= 300 {
            assert(text.subrange(text.len() - body.len(), text.len() as int) =~= body);
        }
    }
}

/// Requests go to the completions of the server, wherever that is.
pub proof fn where_requests_go(base: Seq<char>)
    ensures
        has_prefix(address_of(base), base),
        has_suffix(address_of(base), "/chat/completions"@),
        address_of(base).len() == base.len() + "/chat/completions"@.len(),
{
    let text = address_of(base);
    let n = text.len() as int;
    assert(text.subrange(0, base.len() as int) =~= base);
    assert(text.subrange(n - "/chat/completions"@.len(), n) =~= "/chat/completions"@);
}

/// A stream is asked for again only where nothing of it had arrived.
pub proof fn what_arrived_is_not_asked_for_again()
    ensures
        may_ask_again(false),
        !may_ask_again(true),
{
}

/// The jitter takes every step from 60 % up to 140 %, and no other.
pub proof fn how_far_the_jitter_goes(nanos: u128)
    ensures
        60_000 <= jitter_of(nanos) < 140_000,
        nanos % 10_000 == 0 ==> jitter_of(nanos) == 60_000,
        nanos % 10_000 == 9_999 ==> jitter_of(nanos) == 139_992,
        nanos % 10_000 == 5_000 ==> jitter_of(nanos) == 100_000,
{
}

/// A part of a call is told only where it says something.
pub proof fn nothing_is_told_of_nothing(pending: Seq<PendingView>, call: SseToolCallDelta)
    ensures
        delta_arguments(call).len() == 0 && delta_name(call) is None ==> delta_events(
            pending,
            call,
        ).len() == 0,
        delta_arguments(call).len() == 0 && delta_name(call) is Some ==> delta_events(
            pending,
            call,
        ).len() == 1,
        delta_arguments(call).len() > 0 ==> delta_events(pending, call).last()
            == (ProviderEventView::ToolArgumentsDelta {
            index: delta_index(call),
            chunk: delta_arguments(call),
        }),
{
}

} // verus!
