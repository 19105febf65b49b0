//! What is told of a run is for: that times can be read, that errors say what they are, and
//! that what the screen shows is what happened.

use crate::agent::answer::delivery_of;
use crate::agent::answer::AnswerDelivery;
use crate::agent::answer::AnswerRequest;
use crate::agent::answer::AnswerRoute;
use crate::agent::add_usage;
use crate::agent::can_go_on;
use crate::agent::cause_of;
use crate::agent::failure_text;
use crate::agent::is_transient;
use crate::agent::project::command_of;
use crate::agent::project::shown_as;
use crate::agent::project::target_of;
use crate::agent::project::RuntimeEventView;
use crate::agent::BudgetKind;
use crate::agent::LiveEventView;
use crate::agent::RunFailureView;
use crate::clock::long_text;
use crate::clock::padded;
use crate::clock::short_text;
use crate::clock::whole_millis;
use crate::clock::year_text;
use crate::clock::zeros;
use crate::json::json_parse;
use crate::json::text_member;
use crate::message::chat_of;
use crate::message::domain_of;
use crate::message::ChatMessageView;
use crate::message::DomainBlockView;
use crate::message::DomainMessageView;
use crate::message::DomainRole;
use crate::message::ToolCallView;
use crate::outcome::outcome_of;
use crate::outcome::plain_payload;
use crate::outcome::status_text;
use crate::outcome::ModelPayloadView;
use crate::outcome::ToolStatus;
use crate::provider::provider_error_text;
use crate::provider::request_replay::drifts_of;
use crate::provider::request_replay::roles_of;
use crate::provider::request_replay::DriftView;
use crate::provider::request_replay::RequestShape;
use crate::provider::trace::mode_of;
use crate::provider::ProviderError;
use crate::provider::ProviderErrorView;
use crate::session::InterruptCause;
use crate::session::Usage;
use crate::text::decimal_of;
use crate::text::has_prefix;
use crate::text::has_suffix;
use crate::text::join_of;
use crate::text::words_of;
use vstd::prelude::*;
use vstd::string::*;

verus! {

/// A number of two digits or less fills two places, with a nought in front where it needs one.
pub proof fn two_places_are_filled(n: nat)
    requires
        n < 100,
    ensures
        padded(n, 2).len() == 2,
        n < 10 ==> padded(n, 2) == seq!['0'] + decimal_of(n),
        n >= 10 ==> padded(n, 2) == decimal_of(n),
{
    reveal_with_fuel(decimal_of, 2);
    if n < 10 {
        assert(decimal_of(n).len() == 1);
        assert(zeros(1) =~= seq!['0']);
    } else {
        assert(decimal_of(n / 10).len() == 1);
        assert(decimal_of(n).len() == 2);
    }
}

/// A date is told by its month, day, hour and minute, each in its own place.
pub proof fn a_date_can_be_read(year: i32, month: u8, day: u8, hour: u8, minute: u8)
    requires
        month < 100,
        day < 100,
        hour < 100,
        minute < 100,
    ensures
        ({
            let text = short_text(Some((year, month, day, hour, minute)));
            &&& text.len() == 11
            &&& text.subrange(0, 2) == padded(month as nat, 2)
            &&& text[2] == '-'
            &&& text.subrange(3, 5) == padded(day as nat, 2)
            &&& text[5] == ' '
            &&& text.subrange(6, 8) == padded(hour as nat, 2)
            &&& text[8] == ':'
            &&& text.subrange(9, 11) == padded(minute as nat, 2)
            &&& has_suffix(long_text(Some((year, month, day, hour, minute))), text)
            &&& has_prefix(
                long_text(Some((year, month, day, hour, minute))),
                year_text(year as int) + "-"@,
            )
        }),
        short_text(None).len() == 0,
        long_text(None).len() == 0,
{
    two_places_are_filled(month as nat);
    two_places_are_filled(day as nat);
    two_places_are_filled(hour as nat);
    two_places_are_filled(minute as nat);
    reveal_strlit("-");
    reveal_strlit(" ");
    reveal_strlit(":");
    let text = short_text(Some((year, month, day, hour, minute)));
    assert(text.subrange(0, 2) =~= padded(month as nat, 2));
    assert(text.subrange(3, 5) =~= padded(day as nat, 2));
    assert(text.subrange(6, 8) =~= padded(hour as nat, 2));
    assert(text.subrange(9, 11) =~= padded(minute as nat, 2));
    let long = long_text(Some((year, month, day, hour, minute)));
    let head = year_text(year as int) + "-"@;
    assert(long.subrange(long.len() - text.len(), long.len() as int) =~= text);
    assert(long.subrange(0, head.len() as int) =~= head);
}

/// A year is told as it is, with a sign where it lies before the first.
pub proof fn a_year_can_be_read(year: int)
    ensures
        year >= 0 ==> has_suffix(year_text(year), decimal_of(year as nat)) && year_text(year).len()
            >= 4,
        year < 0 ==> has_prefix(year_text(year), "-"@) && has_suffix(
            year_text(year),
            decimal_of((-year) as nat),
        ) && year_text(year).len() >= 4,
{
    let text = year_text(year);
    reveal_strlit("-");
    if year >= 0 {
        let digits = decimal_of(year as nat);
        assert(text.subrange(text.len() - digits.len(), text.len() as int) =~= digits);
    } else {
        let digits = decimal_of((-year) as nat);
        assert(text.subrange(text.len() - digits.len(), text.len() as int) =~= digits);
        assert(text.subrange(0, 1) =~= "-"@);
    }
}

/// Milliseconds are a millionth of nanoseconds, and what is left over is dropped.
pub proof fn milliseconds_are_whole(nanos: i128)
    ensures
        nanos >= 0 ==> whole_millis(Some(nanos)) * 1_000_000 <= nanos < (whole_millis(Some(nanos))
            + 1) * 1_000_000,
        nanos < 0 ==> whole_millis(Some(nanos)) * 1_000_000 >= nanos > (whole_millis(Some(nanos))
            - 1) * 1_000_000,
        whole_millis(None) == 0,
{
}

/// Requests are written down where that is asked for, and their bodies where those are.
pub proof fn when_requests_are_written_down(value: Option<Seq<char>>)
    ensures
        (mode_of(value) == Some(true)) == (value == Some("body"@) || value == Some("full"@)),
        value is None ==> mode_of(value) is None,
        (mode_of(value) is Some) == (value == Some("body"@) || value == Some("full"@) || value
            == Some("1"@) || value == Some("true"@)),
{
    reveal_strlit("body");
    reveal_strlit("full");
    reveal_strlit("1");
    reveal_strlit("true");
    assert("body"@[0] == 'b' && "full"@[0] == 'f' && "1"@[0] == '1' && "true"@[0] == 't');
}

/// Every message keeps its place and its role.
pub proof fn roles_keep_their_places(messages: Seq<ChatMessageView>, i: int)
    requires
        0 <= i < messages.len(),
    ensures
        roles_of(messages).len() == messages.len(),
        messages[i] is System ==> roles_of(messages)[i] == "system"@,
        messages[i] is User ==> roles_of(messages)[i] == "user"@,
        messages[i] is Assistant ==> roles_of(messages)[i] == "assistant"@,
        messages[i] is Tool ==> roles_of(messages)[i] == "tool"@,
{
}

/// What differs between two requests is told, with both sides; and nothing else is.
pub proof fn what_differs_is_told(expected: RequestShape, actual: RequestShape)
    ensures
        ({
            let drifts = drifts_of(expected, actual);
            &&& (expected.model != actual.model) == drifts.contains(
                (DriftView {
                    field: "model"@,
                    expected: expected.model,
                    actual: actual.model,
                }),
            )
            &&& (expected.tools != actual.tools) == drifts.contains(
                (DriftView {
                    field: "tool_schema_fingerprint"@,
                    expected: expected.tools,
                    actual: actual.tools,
                }),
            )
            &&& expected.count != actual.count ==> drifts.contains(
                (DriftView {
                    field: "message_count"@,
                    expected: decimal_of(expected.count as nat),
                    actual: decimal_of(actual.count as nat),
                }),
            )
            &&& drifts.len() == (if expected.model != actual.model {
                1int
            } else {
                0
            }) + (if expected.roles != actual.roles {
                1int
            } else {
                0
            }) + (if expected.tools != actual.tools {
                1int
            } else {
                0
            }) + (if expected.count != actual.count {
                1int
            } else {
                0
            })
        }),
{
    reveal_strlit("model");
    reveal_strlit("role_sequence");
    reveal_strlit("tool_schema_fingerprint");
    reveal_strlit("message_count");
    assert("model"@.len() == 5 && "role_sequence"@.len() == 13);
    assert("tool_schema_fingerprint"@.len() == 23 && "message_count"@.len() == 13);
    assert("message_count"@[0] == 'm' && "role_sequence"@[0] == 'r');
    let drifts = drifts_of(expected, actual);
    let m = if expected.model != actual.model {
        1int
    } else {
        0
    };
    let r = m + if expected.roles != actual.roles {
        1int
    } else {
        0
    };
    let t = r + if expected.tools != actual.tools {
        1int
    } else {
        0
    };
    if expected.model != actual.model {
        assert(drifts[0].field == "model"@);
        assert(drifts[0] == (DriftView {
            field: "model"@,
            expected: expected.model,
            actual: actual.model,
        }));
    } else {
        assert forall|i: int| 0 <= i < drifts.len() implies (#[trigger] drifts[i]).field
            != "model"@ by {}
    }
    if expected.tools != actual.tools {
        assert(drifts[r] == (DriftView {
            field: "tool_schema_fingerprint"@,
            expected: expected.tools,
            actual: actual.tools,
        }));
    } else {
        assert forall|i: int| 0 <= i < drifts.len() implies (#[trigger] drifts[i]).field
            != "tool_schema_fingerprint"@ by {}
    }
    if expected.count != actual.count {
        assert(drifts[t] == (DriftView {
            field: "message_count"@,
            expected: decimal_of(expected.count as nat),
            actual: decimal_of(actual.count as nat),
        }));
    }
}

/// A message keeps its role, and its text, its calls and its result each become a block.
pub proof fn blocks_hold_what_was_said(message: ChatMessageView)
    ensures
        message matches ChatMessageView::System(text) ==> domain_of(message).role
            == DomainRole::System && domain_of(message).content == seq![
            DomainBlockView::Text(text),
        ],
        message matches ChatMessageView::User(text) ==> domain_of(message).role == DomainRole::User
            && domain_of(message).content == seq![DomainBlockView::Text(text)],
        message matches ChatMessageView::Tool { tool_call_id, name, content } ==> domain_of(
            message,
        ).role == DomainRole::Tool && domain_of(message).content == seq![
            DomainBlockView::ToolResult { tool_call_id, name, content },
        ],
        message is Assistant ==> domain_of(message).role == DomainRole::Assistant,
        message matches ChatMessageView::Assistant { content, tool_calls } ==> domain_of(
            message,
        ).content.len() == tool_calls.len() + if content.len() > 0 {
            1int
        } else {
            0
        },
{
}

/// Every call of an answer becomes a block behind its text, in its order.
pub proof fn calls_keep_their_order(content: Seq<char>, calls: Seq<ToolCallView>, k: int)
    requires
        0 <= k < calls.len(),
    ensures
        ({
            let blocks = domain_of(
                ChatMessageView::Assistant { content, tool_calls: calls },
            ).content;
            &&& content.len() > 0 ==> blocks[0] == DomainBlockView::Text(content) && blocks[k + 1]
                == DomainBlockView::ToolCall(calls[k])
            &&& content.len() == 0 ==> blocks[k] == DomainBlockView::ToolCall(calls[k])
        }),
{
}

/// An answer of blocks says all their texts, one behind the other, and makes all their calls;
/// what the user and the instructions say is their first text.
pub proof fn what_blocks_say(message: DomainMessageView, block: DomainBlockView)
    requires
        message.role == DomainRole::Assistant,
    ensures
        ({
            let before = chat_of(message);
            let after = chat_of(
                DomainMessageView { role: message.role, content: message.content.push(block) },
            );
            &&& before is Assistant && after is Assistant
            &&& block matches DomainBlockView::Text(text) ==> after->Assistant_content
                == before->Assistant_content + text && after->tool_calls == before->tool_calls
            &&& block matches DomainBlockView::ToolCall(call) ==> after->tool_calls
                == before->tool_calls.push(call) && after->Assistant_content
                == before->Assistant_content
            &&& block is ToolResult ==> after == before
        }),
{
    assert(message.content.push(block).drop_last() =~= message.content);
}

/// The first text of a message of the user counts, and its first result of one of a tool.
pub proof fn the_first_block_counts(rest: Seq<DomainBlockView>, text: Seq<char>)
    ensures
        chat_of(
            DomainMessageView {
                role: DomainRole::User,
                content: seq![DomainBlockView::Text(text)] + rest,
            },
        ) == ChatMessageView::User(text),
        chat_of(
            DomainMessageView {
                role: DomainRole::System,
                content: seq![DomainBlockView::Text(text)] + rest,
            },
        ) == ChatMessageView::System(text),
{
}

/// The states of a call are told apart, each by a word.
pub proof fn states_have_their_words(status: ToolStatus)
    ensures
        status_text(status) == match status {
            ToolStatus::Succeeded => "succeeded"@,
            ToolStatus::Failed => "failed"@,
            ToolStatus::TimedOut => "timed_out"@,
            ToolStatus::Cancelled => "cancelled"@,
            ToolStatus::Interrupted => "interrupted"@,
            ToolStatus::Rejected => "rejected"@,
        },
{
}

/// An outcome is that of its payload, and nothing is made up: no program, no code, no file.
pub proof fn an_outcome_is_that_of_its_payload(
    tool: Seq<char>,
    payload: ModelPayloadView,
    status: ToolStatus,
    output: Seq<char>,
)
    ensures
        outcome_of(tool, payload).status == payload.status,
        outcome_of(tool, payload).model_payload == payload,
        outcome_of(tool, payload).session_metadata.tool == tool,
        outcome_of(tool, payload).session_metadata.target is None,
        outcome_of(tool, payload).session_metadata.diff is None,
        plain_payload(status, output).status == status,
        plain_payload(status, output).output == output,
        plain_payload(status, output).program is None && plain_payload(status, output).exit_code
            is None && plain_payload(status, output).effect is None && plain_payload(
            status,
            output,
        ).artifact is None && plain_payload(status, output).duration_ms == 0,
{
}

/// An error of the provider says what it is and ends in what it was told.
pub proof fn errors_of_the_provider_say_what_they_are(text: Seq<char>)
    ensures
        provider_error_text(ProviderErrorView::Connection(text)) == "connection failed: "@ + text,
        provider_error_text(ProviderErrorView::StreamInterrupted(text)) == "stream interrupted: "@
            + text,
        provider_error_text(ProviderErrorView::Http(text)) == "http error: "@ + text,
        provider_error_text(ProviderErrorView::Protocol(text)) == "protocol error: "@ + text,
        provider_error_text(ProviderErrorView::Auth(text)) == "authentication failed: "@ + text,
        provider_error_text(ProviderErrorView::RateLimited(text)) == "rate limited: "@ + text,
        provider_error_text(ProviderErrorView::Cancelled) == "cancelled"@,
{
}

/// A failure of a run says whose it is.
pub proof fn failures_say_whose_they_are(text: Seq<char>)
    ensures
        failure_text(RunFailureView::Provider(text)) == "provider failure: "@ + text,
        failure_text(RunFailureView::ToolInfrastructure(text)) == "tool infrastructure failure: "@
            + text,
        failure_text(RunFailureView::Session(text)) == "session failure: "@ + text,
        failure_text(RunFailureView::BudgetExceeded(BudgetKind::MaxTurns)) == "budget exceeded: "@
            + "max_turns"@,
        failure_text(RunFailureView::BudgetExceeded(BudgetKind::MaxToolCalls))
            == "budget exceeded: "@ + "max_tool_calls"@,
{
}

/// What failed on the way may pass, and what was refused will not: only a stream that broke in
/// the middle is continued, and no error is both made again and continued.
pub proof fn which_errors_may_pass(error: ProviderError)
    ensures
        error is Connection || error is Http || error is RateLimited ==> is_transient(error),
        error is Auth || error is Protocol || error is Cancelled ==> !is_transient(error)
            && !can_go_on(error),
        error is StreamInterrupted == can_go_on(error),
        !(can_go_on(error) && is_transient(error)),
{
}

/// The record says what broke an attempt off: the connection, the protocol, the limit or the
/// key.
pub proof fn what_broke_an_attempt_off(error: ProviderError)
    ensures
        (cause_of(error) == InterruptCause::Connection) == (error is Connection || error is Http
            || error is StreamInterrupted),
        (cause_of(error) == InterruptCause::Protocol) == (error is Protocol),
        (cause_of(error) == InterruptCause::RateLimited) == (error is RateLimited),
        (cause_of(error) == InterruptCause::Auth) == (error is Auth),
        (cause_of(error) == InterruptCause::Other) == (error is Cancelled),
{
}

/// What is used adds up, each kind of token on its own.
pub proof fn tokens_add_up(total: Usage, more: Usage)
    ensures
        total.input_tokens + more.input_tokens <= u64::MAX ==> add_usage(total, more).input_tokens
            == total.input_tokens + more.input_tokens,
        total.output_tokens + more.output_tokens <= u64::MAX ==> add_usage(
            total,
            more,
        ).output_tokens == total.output_tokens + more.output_tokens,
        total.cache_read_tokens + more.cache_read_tokens <= u64::MAX ==> add_usage(
            total,
            more,
        ).cache_read_tokens == total.cache_read_tokens + more.cache_read_tokens,
        total.input_tokens + more.input_tokens > u64::MAX ==> add_usage(total, more).input_tokens
            == u64::MAX,
        total.output_tokens + more.output_tokens > u64::MAX ==> add_usage(total, more).output_tokens
            == u64::MAX,
        total.cache_read_tokens + more.cache_read_tokens > u64::MAX ==> add_usage(
            total,
            more,
        ).cache_read_tokens == u64::MAX,
{
}

/// A command is shown on one line, and kept whole beside it; a call of a file is shown with its
/// path; and every other call by its name.
pub proof fn what_a_call_is_shown_as(name: Seq<char>, arguments: Seq<char>, text: Seq<char>)
    ensures
        name == "bash"@ && text_member(json_parse(arguments), "command"@) == Some(text) ==> {
            &&& join_of(words_of(text), " "@).len() <= 200 ==> target_of(name, arguments)
                == join_of(words_of(text), " "@)
            &&& text.len() <= 8192 ==> command_of(name, arguments) == Some(text)
            &&& text.len() > 8192 ==> command_of(name, arguments) == Some(
                text.subrange(0, 8192) + "…"@,
            )
        },
        (name == "read"@ || name == "write"@ || name == "edit"@ || name == "list"@ || name
            == "search"@) && text_member(json_parse(arguments), "path"@) == Some(text) && (name
            + " "@ + text).len() <= 120 ==> target_of(name, arguments) == name + " "@ + text,
        name != "bash"@ ==> command_of(name, arguments) is None,
        name != "bash"@ && name != "read"@ && name != "write"@ && name != "edit"@ && name
            != "list"@ && name != "search"@ ==> target_of(name, arguments) == name,
        text_member(json_parse(arguments), "command"@) is None && name == "bash"@ ==> target_of(
            name,
            arguments,
        ) == name && command_of(name, arguments) is None,
{
    reveal_strlit("bash");
    reveal_strlit("read");
    reveal_strlit("write");
    reveal_strlit("edit");
    reveal_strlit("list");
    reveal_strlit("search");
    assert("bash"@[0] == 'b' && "read"@[0] == 'r' && "write"@[0] == 'w' && "edit"@[0] == 'e');
    assert("list"@[0] == 'l' && "search"@[0] == 's');
}

/// The screen shows what happens, and changes none of it: what is said, which call runs and how
/// it ended, and how much is used.
pub proof fn the_screen_shows_what_happens(event: LiveEventView)
    ensures
        event matches LiveEventView::StepStarted { step } ==> shown_as(event) == (
        RuntimeEventView::StepStarted { step }),
        event matches LiveEventView::AssistantDelta { request_id, kind, text } ==> shown_as(event)
            == (RuntimeEventView::AssistantDelta { request_id, kind, text }),
        event matches LiveEventView::ToolStarted { call_id, name, arguments } ==> (shown_as(event)
            matches RuntimeEventView::ToolStarted { call_id: id, name: shown, target, command }
            && id == call_id && shown == name && target == target_of(name, arguments) && command
            == command_of(name, arguments)),
        event matches LiveEventView::ToolCompleted {
            call_id,
            name,
            status,
            duration_ms,
            exit_code,
            output,
            diff,
        } ==> shown_as(event) == (RuntimeEventView::ToolCompleted {
            call_id,
            name,
            status,
            duration_ms,
            exit_code,
            tail: output,
            diff,
        }),
        event matches LiveEventView::ToolOutputDelta { call_id, stream, text } ==> shown_as(event)
            == (RuntimeEventView::ToolOutputDelta { call_id, stream, text }),
        event matches LiveEventView::ContextUsage { projected, usable } ==> shown_as(event) == (
        RuntimeEventView::ContextUsage { projected, usable }),
        event matches LiveEventView::UsageUpdated {
            input_tokens,
            output_tokens,
            cache_read_tokens,
        } ==> shown_as(event) == (RuntimeEventView::UsageUpdated {
            input_tokens,
            output_tokens,
            cache_read_tokens,
        }),
        event is BudgetWarning ==> shown_as(event) is BudgetWarning,
        event matches LiveEventView::PlanUpdated { plan } ==> shown_as(event) == (
        RuntimeEventView::PlanUpdated { plan }),
        event matches LiveEventView::StreamRecovering { attempt } ==> shown_as(event) == (
        RuntimeEventView::StreamRecovering { attempt }),
        event matches LiveEventView::TurnRestarting { attempt } ==> shown_as(event) == (
        RuntimeEventView::TurnRestarting { attempt }),
        event matches LiveEventView::CompactionNotice { message } ==> shown_as(event) == (
        RuntimeEventView::CompactionNotice { message }),
{
}

/// An answer arrives where it is for the question that was put, in the session that put it,
/// and in time; a question without a term does not expire.
pub proof fn when_an_answer_arrives(request: AnswerRequest, route: AnswerRoute, now: u64)
    ensures
        ({
            let same = route.request_id == request.route.request_id && route.session_id@
                == request.route.session_id@;
            let in_time = request.expires_at == 0 || now <= request.expires_at;
            &&& same && in_time ==> delivery_of(request, route, now) == AnswerDelivery::Delivered
            &&& !same ==> delivery_of(request, route, now) == AnswerDelivery::RouteMismatch
            &&& same && !in_time ==> delivery_of(request, route, now) == AnswerDelivery::Expired
        }),
{
}

} // verus!
