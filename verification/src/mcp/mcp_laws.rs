//! What the servers of tools are for: that those that are configured are started, that their
//! tools are known by names of their own, and that it is told how they fare.

use crate::mcp::config::enabled_of;
use crate::mcp::config::server_of;
use crate::mcp::config::servers_of;
use crate::mcp::config::slot;
use crate::mcp::config::McpServerConfig;
use crate::mcp::config::McpServerView;
use crate::mcp::config::ServerEntry;
use crate::mcp::error::code_of;
use crate::mcp::error::error_text;
use crate::mcp::error::kind_of;
use crate::mcp::error::McpError;
use crate::mcp::manager::answer_to;
use crate::mcp::manager::held_after;
use crate::mcp::manager::known_as;
use crate::mcp::manager::position_of;
use crate::mcp::manager::registered_tools;
use crate::mcp::manager::status_line;
use crate::mcp::manager::status_page;
use crate::mcp::manager::widened;
use crate::mcp::manager::Attempt;
use crate::mcp::manager::McpServerStatus;
use crate::mcp::manager::ServerStateView;
use crate::text::decimal_of;
use crate::text::has_prefix;
use crate::text::has_suffix;
use crate::text::has_text;
use crate::text::signed_of;
use crate::text_laws::a_part_occurs;
use crate::text_laws::parts_of_parts_occur;
use vstd::prelude::*;
use vstd::string::*;

verus! {

/// An entry is a server where it says what to run, and runs as it says; unless it says
/// otherwise it is enabled and has half a minute, and it always has some time.
pub proof fn a_server_is_what_is_written(entry: ServerEntry)
    ensures
        (server_of(entry) is Some) == (entry.command is Some && entry.command->0@.len() > 0),
        server_of(entry) is Some ==> {
            let server = server_of(entry)->0;
            &&& server.name == entry.name@
            &&& server.command == entry.command->0@
            &&& entry.args is Some ==> server.args == entry.args->0@
            &&& entry.args is None ==> server.args.len() == 0
            &&& entry.env is Some ==> server.env == entry.env->0@
            &&& entry.env is None ==> server.env.len() == 0
            &&& server.enabled == (entry.enabled != Some(false))
            &&& entry.timeout_ms is None ==> server.timeout_ms == 30_000
            &&& server.timeout_ms > 0
            &&& entry.timeout_ms is Some && entry.timeout_ms->0 > 0 ==> server.timeout_ms
                == entry.timeout_ms->0
        },
{
}

proof fn lemma_slot(sorted: Seq<McpServerView>, server: McpServerView)
    ensures
        0 <= slot(sorted, server) <= sorted.len(),
    decreases sorted.len(),
{
    if sorted.len() > 0 {
        lemma_slot(sorted.drop_last(), server);
    }
}

/// Every server that is written down is there, and no other.
pub proof fn every_server_is_there(entries: Seq<ServerEntry>, server: McpServerView)
    ensures
        servers_of(entries).contains(server) == (exists|i: int|
            0 <= i < entries.len() && server_of(#[trigger] entries[i]) == Some(server)),
    decreases entries.len(),
{
    let all = servers_of(entries);
    if entries.len() > 0 {
        let front = entries.drop_last();
        let last = entries.last();
        let before = servers_of(front);
        every_server_is_there(front, server);
        if exists|i: int| 0 <= i < front.len() && server_of(#[trigger] front[i]) == Some(server) {
            let i = choose|i: int|
                0 <= i < front.len() && server_of(#[trigger] front[i]) == Some(server);
            assert(entries[i] == front[i]);
        }
        if exists|i: int| 0 <= i < entries.len() && server_of(#[trigger] entries[i]) == Some(
            server,
        ) {
            let i = choose|i: int|
                0 <= i < entries.len() && server_of(#[trigger] entries[i]) == Some(server);
            if i < front.len() {
                assert(entries[i] == front[i]);
            }
        }
        assert(entries[entries.len() - 1] == last);
        if let Some(new) = server_of(last) {
            let k = slot(before, new);
            lemma_slot(before, new);
            assert(all == before.insert(k, new));
            assert(all[k] == new);
            if before.contains(server) {
                let i = choose|i: int| 0 <= i < before.len() && before[i] == server;
                if i < k {
                    assert(all[i] == server);
                } else {
                    assert(all[i + 1] == server);
                }
            }
            if all.contains(server) && server != new {
                let i = choose|i: int| 0 <= i < all.len() && all[i] == server;
                if i < k {
                    assert(before[i] == server);
                } else {
                    assert(before[i - 1] == server);
                }
            }
        }
    }
}

/// The servers that are started are those that are enabled.
pub proof fn enabled_servers_are_started(servers: Seq<McpServerView>, server: McpServerView)
    ensures
        enabled_of(servers).contains(server) == (servers.contains(server) && server.enabled),
    decreases servers.len(),
{
    if servers.len() > 0 {
        let front = servers.drop_last();
        let before = enabled_of(front);
        let all = enabled_of(servers);
        enabled_servers_are_started(front, server);
        assert(servers[servers.len() - 1] == servers.last());
        if front.contains(server) {
            let i = choose|i: int| 0 <= i < front.len() && front[i] == server;
            assert(servers[i] == server);
        }
        if servers.contains(server) && server != servers.last() {
            let i = choose|i: int| 0 <= i < servers.len() && servers[i] == server;
            assert(front[i] == server);
        }
        if servers.last().enabled {
            assert(all[all.len() - 1] == servers.last());
            if before.contains(server) {
                let i = choose|i: int| 0 <= i < before.len() && before[i] == server;
                assert(all[i] == server);
            }
            if all.contains(server) && server != servers.last() {
                let i = choose|i: int| 0 <= i < all.len() && all[i] == server;
                assert(before[i] == server);
            }
        }
    }
}

/// An error is told by its kind: the fault of the arguments, of time, of the tool, or of the
/// server.
pub proof fn errors_have_their_codes(error: McpError)
    ensures
        ({
            let code = code_of(kind_of(error));
            match error {
                McpError::InvalidSchema(_) => code == "mcp_invalid_arguments"@,
                McpError::Timeout => code == "mcp_timeout"@,
                McpError::ServerError { .. } => code == "mcp_execution_failed"@,
                McpError::ProcessDied(_) => code == "mcp_unavailable"@,
                McpError::Transport(_) => code == "mcp_unavailable"@,
                McpError::Protocol(_) => code == "mcp_unavailable"@,
            }
        }),
{
}

/// An error says what happened, in the words of the server where it has any.
pub proof fn errors_say_what_happened(error: McpError)
    ensures
        match error {
            McpError::ProcessDied(detail) => has_suffix(error_text(error), detail@),
            McpError::Transport(detail) => has_suffix(error_text(error), detail@),
            McpError::Protocol(detail) => has_suffix(error_text(error), detail@),
            McpError::InvalidSchema(detail) => has_suffix(error_text(error), detail@),
            McpError::ServerError { code, message } => has_suffix(
                error_text(error),
                "("@ + signed_of(code as int) + "): "@ + message@,
            ),
            McpError::Timeout => error_text(error) == "MCP 调用超时"@,
        },
{
    let text = error_text(error);
    let n = text.len() as int;
    match error {
        McpError::ProcessDied(detail) => {
            assert(text.subrange(n - detail@.len(), n) =~= detail@);
        },
        McpError::Transport(detail) => {
            assert(text.subrange(n - detail@.len(), n) =~= detail@);
        },
        McpError::Protocol(detail) => {
            assert(text.subrange(n - detail@.len(), n) =~= detail@);
        },
        McpError::InvalidSchema(detail) => {
            assert(text.subrange(n - detail@.len(), n) =~= detail@);
        },
        McpError::ServerError { code, message } => {
            reveal_strlit("MCP server 错误 (");
            reveal_strlit("MCP server 错误 ");
            reveal_strlit("(");
            assert("MCP server 错误 ("@ =~= "MCP server 错误 "@ + "("@);
            let tail = "("@ + signed_of(code as int) + "): "@ + message@;
            assert(text =~= "MCP server 错误 "@ + tail);
            assert(text.subrange(n - tail.len(), n) =~= tail);
        },
        McpError::Timeout => {},
    }
}

/// A server runs once its tools are registered, with as many as there are; and an attempt that
/// failed is answered with its reason and changes nothing. No other server is touched.
pub proof fn what_becomes_of_an_attempt(
    held: Map<Seq<char>, McpServerStatus>,
    name: Seq<char>,
    attempt: Attempt,
    other: Seq<char>,
)
    ensures
        ({
            let after = held_after(held, name, attempt);
            &&& attempt matches Attempt::Registered(tool_count) ==> after.dom().contains(name)
                && after[name] == (McpServerStatus::Connected { tool_count }) && answer_to(attempt)
                == Ok::<usize, McpError>(tool_count)
            &&& attempt matches Attempt::Failed(error) ==> after == held && answer_to(attempt)
                == Err::<usize, McpError>(error)
            &&& attempt matches Attempt::Refused(text) ==> after == held && answer_to(attempt)
                == Err::<usize, McpError>(McpError::Protocol(text))
            &&& other != name ==> after.dom().contains(other) == held.dom().contains(other)
            &&& other != name && held.dom().contains(other) ==> after[other] == held[other]
        }),
{
}

/// A tool is known by its server and its own name; one without a name is not known.
pub proof fn tools_have_names_of_their_own(server: Seq<char>, tool: Seq<char>, other: Seq<char>)
    ensures
        (known_as(server, tool) is None) == (tool.len() == 0),
        tool.len() > 0 ==> known_as(server, tool)->0 == "mcp::"@ + server + "::"@ + tool,
        tool.len() > 0 && other.len() > 0 && tool != other ==> known_as(server, tool) != known_as(
            server,
            other,
        ),
        tool.len() > 0 && server != other && server.len() == other.len() ==> known_as(server, tool)
            != known_as(other, tool),
{
    let front = "mcp::"@ + server + "::"@;
    if tool.len() > 0 && other.len() > 0 && tool != other {
        let a = front + tool;
        let b = front + other;
        if a == b {
            assert(a.subrange(front.len() as int, a.len() as int) =~= tool);
            assert(b.subrange(front.len() as int, b.len() as int) =~= other);
        }
    }
    if tool.len() > 0 && server != other && server.len() == other.len() {
        let a = "mcp::"@ + server + "::"@ + tool;
        let b = "mcp::"@ + other + "::"@ + tool;
        if a == b {
            let n = "mcp::"@.len() as int;
            assert(a.subrange(n, n + server.len()) =~= server);
            assert(b.subrange(n, n + other.len()) =~= other);
        }
    }
}

/// Every tool with a name is registered, in its order.
pub proof fn every_tool_is_registered(server: Seq<char>, tools: Seq<Seq<char>>, tool: Seq<char>)
    ensures
        registered_tools(server, Seq::<Seq<char>>::empty()).len() == 0,
        tool.len() == 0 ==> registered_tools(server, tools.push(tool)) == registered_tools(
            server,
            tools,
        ),
        tool.len() > 0 ==> registered_tools(server, tools.push(tool)) == registered_tools(
            server,
            tools,
        ).push("mcp::"@ + server + "::"@ + tool),
{
    assert(tools.push(tool).drop_last() =~= tools);
}

proof fn lemma_position(configs: Seq<McpServerConfig>, name: Seq<char>, i: int, k: int)
    requires
        0 <= i <= k < configs.len(),
        configs[k].name@ == name,
        forall|j: int| i <= j < k ==> (#[trigger] configs[j]).name@ != name,
    ensures
        position_of(configs, name, i) == Some(k),
    decreases k - i,
{
    if i < k {
        assert(configs[i].name@ != name);
        lemma_position(configs, name, i + 1, k);
    }
}

proof fn lemma_no_position(configs: Seq<McpServerConfig>, name: Seq<char>, i: int)
    requires
        forall|j: int| 0 <= j < configs.len() ==> (#[trigger] configs[j]).name@ != name,
    ensures
        position_of(configs, name, i) is None,
    decreases configs.len() - i,
{
    if 0 <= i < configs.len() {
        lemma_no_position(configs, name, i + 1);
    }
}

/// A server is found by its name, the first of that name.
pub proof fn servers_are_found_by_name(configs: Seq<McpServerConfig>, name: Seq<char>, k: int)
    ensures
        0 <= k < configs.len() && configs[k].name@ == name && (forall|j: int|
            0 <= j < k ==> (#[trigger] configs[j]).name@ != name) ==> position_of(configs, name, 0)
            == Some(k),
        (forall|j: int| 0 <= j < configs.len() ==> (#[trigger] configs[j]).name@ != name)
            ==> position_of(configs, name, 0) is None,
{
    if 0 <= k < configs.len() && configs[k].name@ == name && (forall|j: int|
        0 <= j < k ==> (#[trigger] configs[j]).name@ != name) {
        lemma_position(configs, name, 0, k);
    }
    if forall|j: int| 0 <= j < configs.len() ==> (#[trigger] configs[j]).name@ != name {
        lemma_no_position(configs, name, 0);
    }
}

/// A line of the page names the server and says how it fares: with how many tools, or why not.
pub proof fn a_line_says_how_a_server_fares(state: ServerStateView)
    ensures
        has_prefix(status_line(state), state.name),
        widened(state.name, 10).len() >= 10,
        match state.status {
            McpServerStatus::Connected { tool_count } => has_text(status_line(state), "connected"@)
                && has_suffix(status_line(state), decimal_of(tool_count as nat) + "\n"@),
            McpServerStatus::Failed(detail) => has_text(status_line(state), "failed"@)
                && has_suffix(status_line(state), detail@ + "\n"@),
            McpServerStatus::Stopped => has_text(status_line(state), "stopped"@),
        },
{
    let line = status_line(state);
    let name = widened(state.name, 10);
    let n = line.len() as int;
    assert(line.subrange(0, state.name.len() as int) =~= state.name);
    match state.status {
        McpServerStatus::Connected { tool_count } => {
            let tail = decimal_of(tool_count as nat) + "\n"@;
            assert(line =~= name + " connected         "@ + tail);
            assert(line.subrange(n - tail.len(), n) =~= tail);
            reveal_strlit(" connected         ");
            reveal_strlit("connected");
            reveal_strlit(" ");
            reveal_strlit("         ");
            assert(" connected         "@ =~= " "@ + "connected"@ + "         "@);
            a_part_occurs(name + " "@, "connected"@, "         "@ + tail);
            assert(line =~= name + " "@ + "connected"@ + ("         "@ + tail));
        },
        McpServerStatus::Failed(detail) => {
            let tail = detail@ + "\n"@;
            assert(line =~= name + " failed            -\n  "@ + tail);
            assert(line.subrange(n - tail.len(), n) =~= tail);
            reveal_strlit(" failed            -\n  ");
            reveal_strlit("failed");
            reveal_strlit(" ");
            reveal_strlit("            -\n  ");
            assert(" failed            -\n  "@ =~= " "@ + "failed"@ + "            -\n  "@);
            a_part_occurs(name + " "@, "failed"@, "            -\n  "@ + tail);
            assert(line =~= name + " "@ + "failed"@ + ("            -\n  "@ + tail));
        },
        McpServerStatus::Stopped => {
            reveal_strlit(" stopped           0\n");
            reveal_strlit("stopped");
            reveal_strlit(" ");
            reveal_strlit("           0\n");
            assert(" stopped           0\n"@ =~= " "@ + "stopped"@ + "           0\n"@);
            a_part_occurs(name + " "@, "stopped"@, "           0\n"@);
            assert(line =~= name + " "@ + "stopped"@ + "           0\n"@);
        },
    }
}

/// Every server has its line on the page.
pub proof fn every_server_has_a_line(states: Seq<ServerStateView>, k: int)
    requires
        0 <= k < states.len(),
    ensures
        has_text(status_page(states), status_line(states[k])),
{
    let head = "Server     Status            Tools\n---------  ----------------  -----\n"@;
    let lines = crate::mcp::manager::status_lines(states);
    let none = Seq::<char>::empty();
    lemma_lines(states, k);
    parts_of_parts_occur(head, lines, none, status_line(states[k]));
    assert(head + lines + none =~= status_page(states));
}

proof fn lemma_lines(states: Seq<ServerStateView>, k: int)
    requires
        0 <= k < states.len(),
    ensures
        has_text(crate::mcp::manager::status_lines(states), status_line(states[k])),
    decreases states.len(),
{
    let front = crate::mcp::manager::status_lines(states.drop_last());
    let last = status_line(states.last());
    let none = Seq::<char>::empty();
    if k == states.len() - 1 {
        a_part_occurs(front, last, none);
        assert(front + last + none =~= front + last);
    } else {
        lemma_lines(states.drop_last(), k);
        parts_of_parts_occur(none, front, last, status_line(states[k]));
        assert(none + front + last =~= front + last);
    }
}

} // verus!
