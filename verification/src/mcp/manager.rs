//! The servers that run.
use crate::mcp::config::McpServerConfig;
use crate::mcp::error::McpError;
use crate::order::at_most;
use crate::order::text_le;
use crate::order::text_order;
use crate::order::text_order_is_total;
use crate::text::decimal;
use crate::text::decimal_of;
use crate::text::opt_view;
use crate::text::owned;
use crate::text::same;
use crate::text::to_chars;
use crate::text::views;
use crate::text::views_push;
use vstd::prelude::*;
use vstd::relations::total_ordering;
use vstd::string::*;

verus! {

/// How a server is doing.
#[derive(Debug, Clone, PartialEq, Eq)]
pub enum McpServerStatus {
    Connected { tool_count: usize },
    Failed(String),
    Stopped,
}

/// A server by name, and how it is doing.
#[derive(Debug, Clone, PartialEq, Eq)]
pub struct ServerState {
    pub name: String,
    pub status: McpServerStatus,
}

/// What a [`ServerState`] says.
pub struct ServerStateView {
    pub name: Seq<char>,
    pub status: McpServerStatus,
}

impl View for ServerState {
    type V = ServerStateView;

    open spec fn view(&self) -> ServerStateView {
        ServerStateView { name: self.name@, status: self.status }
    }
}

/// Whether servers come in the order of their names, each name once.
pub open spec fn in_strict_order(states: Seq<ServerStateView>) -> bool {
    forall|i: int, j: int|
        0 <= i < j < states.len() ==> #[trigger] comes_before(states[i].name, states[j].name)
}

/// Whether a name comes before another.
pub open spec fn comes_before(a: Seq<char>, b: Seq<char>) -> bool {
    text_le(a, b) && a != b
}

/// What servers say, by name.
pub open spec fn by_name(states: Seq<ServerStateView>) -> Map<Seq<char>, McpServerStatus>
    decreases states.len(),
{
    if states.len() == 0 {
        Map::empty()
    } else {
        by_name(states.drop_last()).insert(states.last().name, states.last().status)
    }
}

proof fn lemma_by_name(states: Seq<ServerStateView>)
    requires
        in_strict_order(states),
    ensures
        forall|i: int|
            0 <= i < states.len() ==> by_name(states).contains_key((#[trigger] states[i]).name)
                && by_name(states)[states[i].name] == states[i].status,
        forall|name: Seq<char>| #[trigger]
            by_name(states).contains_key(name) ==> exists|i: int|
                0 <= i < states.len() && (#[trigger] states[i]).name == name,
    decreases states.len(),
{
    if states.len() > 0 {
        let rest = states.drop_last();
        assert forall|i: int, j: int| 0 <= i < j < rest.len() implies #[trigger] comes_before(
            rest[i].name,
            rest[j].name,
        ) by {
            assert(comes_before(states[i].name, states[j].name));
        }
        lemma_by_name(rest);
        assert forall|i: int| 0 <= i < states.len() implies by_name(states).contains_key(
            (#[trigger] states[i]).name,
        ) && by_name(states)[states[i].name] == states[i].status by {
            if i < rest.len() {
                assert(rest[i] == states[i]);
                assert(comes_before(states[i].name, states[states.len() - 1].name));
            }
        }
        assert forall|name: Seq<char>| #[trigger]
            by_name(states).contains_key(name) implies exists|i: int|
            0 <= i < states.len() && (#[trigger] states[i]).name == name by {
            if name == states.last().name {
                assert(states[states.len() - 1].name == name);
            } else {
                assert(by_name(rest).contains_key(name));
                let i = choose|i: int| 0 <= i < rest.len() && (#[trigger] rest[i]).name == name;
                assert(states[i].name == name);
            }
        }
    }
}

/// How an attempt to start a server went.
#[derive(Debug)]
pub enum Attempt {
    /// The server did not start, or did not say which tools it has.
    Failed(McpError),
    /// A tool of the server could not be registered.
    Refused(String),
    /// So many tools were registered.
    Registered(usize),
}

/// What an attempt to start a server is answered with.
pub open spec fn answer_to(attempt: Attempt) -> Result<usize, McpError> {
    match attempt {
        Attempt::Failed(error) => Err(error),
        Attempt::Refused(text) => Err(McpError::Protocol(text)),
        Attempt::Registered(tool_count) => Ok(tool_count),
    }
}

/// The servers that run after an attempt to start one.
pub open spec fn held_after(
    held: Map<Seq<char>, McpServerStatus>,
    name: Seq<char>,
    attempt: Attempt,
) -> Map<Seq<char>, McpServerStatus> {
    match attempt {
        Attempt::Registered(tool_count) => held.insert(
            name,
            McpServerStatus::Connected { tool_count },
        ),
        _ => held,
    }
}

/// The servers that run.
#[derive(Debug)]
pub struct McpManager {
    servers: Vec<ServerState>,
}

impl View for McpManager {
    type V = Map<Seq<char>, McpServerStatus>;

    closed spec fn view(&self) -> Map<Seq<char>, McpServerStatus> {
        by_name(views(self.servers@))
    }
}

fn copy_state(state: &ServerState) -> (r: ServerState)
    ensures
        r@ == state@,
{
    ServerState {
        name: state.name.clone(),
        status: match &state.status {
            McpServerStatus::Connected { tool_count } => McpServerStatus::Connected {
                tool_count: *tool_count,
            },
            McpServerStatus::Failed(detail) => McpServerStatus::Failed(detail.clone()),
            McpServerStatus::Stopped => McpServerStatus::Stopped,
        },
    }
}

impl McpManager {
    /// Whether every server is held once.
    pub closed spec fn wf(self) -> bool {
        in_strict_order(views(self.servers@))
    }

    /// No servers.
    pub fn new() -> (r: Self)
        ensures
            r.wf(),
            r@ == Map::<Seq<char>, McpServerStatus>::empty(),
    {
        McpManager { servers: Vec::new() }
    }

    /// The position of the first server that does not come before the given name.
    fn slot(&self, name: &str) -> (r: usize)
        requires
            self.wf(),
        ensures
            r <= self.servers@.len(),
            forall|i: int|
                0 <= i < r ==> comes_before((#[trigger] views(self.servers@)[i]).name, name@),
            forall|i: int|
                r <= i < self.servers@.len() ==> !comes_before(
                    (#[trigger] views(self.servers@)[i]).name,
                    name@,
                ),
    {
        let ghost all = views(self.servers@);
        let mut k: usize = self.servers.len();
        while k > 0
            invariant
                k <= self.servers@.len() == all.len(),
                all == views(self.servers@),
                in_strict_order(all),
                forall|i: int|
                    k <= i < all.len() ==> !comes_before((#[trigger] all[i]).name, name@),
            decreases k,
        {
            let held = self.servers[k - 1].name.as_str();
            assert(all[k - 1] == self.servers@[k - 1]@);
            if at_most(held, name) && !same(held, name) {
                proof {
                    text_order_is_total();
                    let r = text_order();
                    assert forall|i: int| 0 <= i < k implies comes_before(
                        (#[trigger] all[i]).name,
                        name@,
                    ) by {
                        if i < k - 1 {
                            assert(comes_before(all[i].name, all[k - 1].name));
                            assert(r(all[i].name, all[k - 1].name));
                            assert(r(all[k - 1].name, name@));
                            assert(r(all[i].name, name@));
                            if all[i].name == name@ {
                                assert(r(name@, all[k - 1].name));
                            }
                        }
                    }
                }
                return k;
            }
            k -= 1;
        }
        k
    }

    /// Takes a server out.
    fn forget(&mut self, name: &str)
        requires
            old(self).wf(),
        ensures
            final(self).wf(),
            final(self)@ == old(self)@.remove(name@),
    {
        let k = self.slot(name);
        let ghost before = views(self.servers@);
        if k < self.servers.len() && same(self.servers[k].name.as_str(), name) {
            assert(before[k as int] == self.servers@[k as int]@);
            self.servers.remove(k);
            proof {
                let after = views(self.servers@);
                assert(after =~= before.remove(k as int));
                assert forall|i: int, j: int| 0 <= i < j < after.len() implies #[trigger] comes_before(
                    after[i].name,
                    after[j].name,
                ) by {
                    let a = if i < k {
                        i
                    } else {
                        i + 1
                    };
                    let b = if j < k {
                        j
                    } else {
                        j + 1
                    };
                    assert(comes_before(before[a].name, before[b].name));
                }
                lemma_by_name(before);
                lemma_by_name(after);
                lemma_removed(before, k as int);
            }
        } else {
            proof {
                lemma_by_name(before);
                text_order_is_total();
                lemma_absent(before, k as int, name@);
                assert(by_name(before).remove(name@) =~= by_name(before));
            }
        }
    }

    /// Takes in how an attempt to start a server went: how many tools it has, or why it does
    /// not run. A server that does not run is not held.
    pub fn start_server(&mut self, server_id: String, attempt: Attempt) -> (r: Result<
        usize,
        McpError,
    >)
        requires
            old(self).wf(),
        ensures
            final(self).wf(),
            r == answer_to(attempt),
            final(self)@ == held_after(old(self)@, server_id@, attempt),
    {
        match attempt {
            Attempt::Failed(error) => Err(error),
            Attempt::Refused(text) => Err(McpError::Protocol(text)),
            Attempt::Registered(tool_count) => {
                let ghost held = self@;
                self.forget(server_id.as_str());
                let k = self.slot(server_id.as_str());
                let ghost before = views(self.servers@);
                let state = ServerState {
                    name: server_id,
                    status: McpServerStatus::Connected { tool_count },
                };
                let ghost shown = state@;
                self.servers.insert(k, state);
                proof {
                    let after = views(self.servers@);
                    assert(after =~= before.insert(k as int, shown));
                    lemma_by_name(before);
                    text_order_is_total();
                    lemma_inserted(before, k as int, shown);
                    assert(self@ =~= held.insert(shown.name, shown.status));
                }
                Ok(tool_count)
            },
        }
    }

    /// Takes out a server that is to be started again, and says where its configuration is;
    /// an error where there is none. Either way it no longer runs.
    pub fn restart_server(&mut self, server_id: &str, configs: &Vec<McpServerConfig>) -> (r: Result<
        usize,
        McpError,
    >)
        requires
            old(self).wf(),
        ensures
            final(self).wf(),
            final(self)@ == old(self)@.remove(server_id@),
            match r {
                Ok(i) => position_of(configs@, server_id@, 0) == Some(i as int),
                Err(error) => position_of(configs@, server_id@, 0) is None && (error matches
                    McpError::Protocol(text) && text@ == "server "@ + server_id@ + " 未配置"@),
            },
    {
        self.forget(server_id);
        find_server(configs, server_id)
    }

    /// Gives out all servers, in the order of their names, so that they can be ended. None
    /// is held any more.
    pub fn shutdown_all(&mut self) -> (r: Vec<ServerState>)
        requires
            old(self).wf(),
        ensures
            final(self).wf(),
            final(self)@ == Map::<Seq<char>, McpServerStatus>::empty(),
            in_strict_order(views(r@)),
            by_name(views(r@)) == old(self)@,
    {
        let servers = self.statuses();
        self.servers = Vec::new();
        servers
    }

    /// How the servers are doing, in the order of their names.
    pub fn statuses(&self) -> (r: Vec<ServerState>)
        requires
            self.wf(),
        ensures
            in_strict_order(views(r@)),
            by_name(views(r@)) == self@,
    {
        let mut out: Vec<ServerState> = Vec::new();
        let ghost all = views(self.servers@);
        let mut i: usize = 0;
        assert(views(out@) =~= all.take(0));
        while i < self.servers.len()
            invariant
                i <= self.servers@.len() == all.len(),
                all == views(self.servers@),
                views(out@) == all.take(i as int),
            decreases self.servers@.len() - i,
        {
            let state = copy_state(&self.servers[i]);
            proof {
                views_push(out@, state);
                assert(all.take(i + 1) =~= all.take(i as int).push(all[i as int]));
            }
            out.push(state);
            i += 1;
        }
        assert(all.take(i as int) =~= all);
        out
    }
}

proof fn lemma_removed(states: Seq<ServerStateView>, k: int)
    requires
        in_strict_order(states),
        in_strict_order(states.remove(k)),
        0 <= k < states.len(),
    ensures
        by_name(states.remove(k)) == by_name(states).remove(states[k].name),
{
    let after = states.remove(k);
    let left = by_name(after);
    let right = by_name(states).remove(states[k].name);
    lemma_by_name(states);
    lemma_by_name(after);
    assert forall|name: Seq<char>| #[trigger] left.contains_key(name) implies right.contains_key(
        name,
    ) && left[name] == right[name] by {
        let i = choose|i: int| 0 <= i < after.len() && (#[trigger] after[i]).name == name;
        let a = if i < k {
            i
        } else {
            i + 1
        };
        assert(after[i] == states[a]);
        if a < k {
            assert(comes_before(states[a].name, states[k].name));
        } else {
            assert(comes_before(states[k].name, states[a].name));
        }
    }
    assert forall|name: Seq<char>| #[trigger] right.contains_key(name) implies left.contains_key(
        name,
    ) by {
        let a = choose|a: int| 0 <= a < states.len() && (#[trigger] states[a]).name == name;
        let i = if a < k {
            a
        } else {
            a - 1
        };
        assert(after[i] == states[a]);
    }
    assert(left =~= right);
}

/// A name is not among servers in order where it is not at its place.
proof fn lemma_absent(states: Seq<ServerStateView>, k: int, name: Seq<char>)
    requires
        in_strict_order(states),
        0 <= k <= states.len(),
        total_ordering(text_order()),
        forall|i: int| 0 <= i < k ==> comes_before((#[trigger] states[i]).name, name),
        forall|i: int| k <= i < states.len() ==> !comes_before((#[trigger] states[i]).name, name),
        k < states.len() ==> states[k].name != name,
    ensures
        !by_name(states).contains_key(name),
        forall|i: int| k <= i < states.len() ==> comes_before(name, (#[trigger] states[i]).name),
{
    let r = text_order();
    lemma_by_name(states);
    assert forall|i: int| k <= i < states.len() implies comes_before(
        name,
        (#[trigger] states[i]).name,
    ) by {
        assert(!comes_before(states[k].name, name));
        assert(r(states[k].name, name) || r(name, states[k].name));
        if i > k {
            assert(comes_before(states[k].name, states[i].name));
            assert(r(name, states[k].name) && r(states[k].name, states[i].name));
            assert(r(name, states[i].name));
            if states[i].name == name {
                assert(r(states[i].name, states[k].name));
            }
        }
    }
}

proof fn lemma_inserted(states: Seq<ServerStateView>, k: int, state: ServerStateView)
    requires
        in_strict_order(states),
        0 <= k <= states.len(),
        total_ordering(text_order()),
        forall|i: int| 0 <= i < k ==> comes_before((#[trigger] states[i]).name, state.name),
        forall|i: int|
            k <= i < states.len() ==> !comes_before((#[trigger] states[i]).name, state.name),
        !by_name(states).contains_key(state.name),
    ensures
        in_strict_order(states.insert(k, state)),
        by_name(states.insert(k, state)) == by_name(states).insert(state.name, state.status),
{
    let after = states.insert(k, state);
    lemma_by_name(states);
    lemma_absent(states, k, state.name);
    assert forall|i: int, j: int| 0 <= i < j < after.len() implies #[trigger] comes_before(
        after[i].name,
        after[j].name,
    ) by {
        let a = if i < k {
            i
        } else {
            i - 1
        };
        let b = if j < k {
            j
        } else {
            j - 1
        };
        if i == k {
            assert(after[j] == states[b]);
        } else if j == k {
            assert(after[i] == states[a]);
        } else {
            assert(comes_before(states[a].name, states[b].name));
        }
    }
    lemma_by_name(after);
    let left = by_name(after);
    let right = by_name(states).insert(state.name, state.status);
    assert forall|name: Seq<char>| #[trigger] left.contains_key(name) implies right.contains_key(
        name,
    ) && left[name] == right[name] by {
        let i = choose|i: int| 0 <= i < after.len() && (#[trigger] after[i]).name == name;
        if i != k {
            let a = if i < k {
                i
            } else {
                i - 1
            };
            assert(after[i] == states[a]);
        }
    }
    assert forall|name: Seq<char>| #[trigger] right.contains_key(name) implies left.contains_key(
        name,
    ) by {
        if name == state.name {
            assert(after[k] == state);
        } else {
            let a = choose|a: int| 0 <= a < states.len() && (#[trigger] states[a]).name == name;
            let i = if a < k {
                a
            } else {
                a + 1
            };
            assert(after[i] == states[a]);
        }
    }
    assert(left =~= right);
}

/// The tools of a server that are registered, by the names under which they are known: all
/// that have a name.
pub open spec fn registered_tools(server: Seq<char>, tools: Seq<Seq<char>>) -> Seq<Seq<char>>
    decreases tools.len(),
{
    if tools.len() == 0 {
        Seq::empty()
    } else {
        let rest = registered_tools(server, tools.drop_last());
        if tools.last().len() == 0 {
            rest
        } else {
            rest.push(tool_name_of(server, tools.last()))
        }
    }
}

/// The tools of a server that are registered.
pub fn tools_to_register(server: &str, tools: &Vec<String>) -> (r: Vec<String>)
    ensures
        views(r@) == registered_tools(server@, views(tools@)),
{
    let mut out: Vec<String> = Vec::new();
    let ghost all = views(tools@);
    let mut i: usize = 0;
    assert(views(out@) =~= registered_tools(server@, all.take(0)));
    while i < tools.len()
        invariant
            i <= tools@.len() == all.len(),
            all == views(tools@),
            views(out@) == registered_tools(server@, all.take(i as int)),
        decreases tools@.len() - i,
    {
        proof {
            let next = all.take(i + 1);
            assert(next.drop_last() =~= all.take(i as int));
            assert(next.last() == tools@[i as int]@);
        }
        if let Some(name) = internal_tool_name(server, tools[i].as_str()) {
            proof {
                views_push(out@, name);
            }
            out.push(name);
        }
        i += 1;
    }
    assert(all.take(i as int) =~= all);
    out
}

/// The name under which a tool of a server is known.
pub open spec fn tool_name_of(server: Seq<char>, tool: Seq<char>) -> Seq<char> {
    "mcp::"@ + server + "::"@ + tool
}

/// The name under which a tool of a server is known; none for a tool without a name.
pub open spec fn known_as(server: Seq<char>, tool: Seq<char>) -> Option<Seq<char>> {
    if tool.len() == 0 {
        None
    } else {
        Some(tool_name_of(server, tool))
    }
}

/// The name under which a tool of a server is known; none for a tool without a name.
pub fn internal_tool_name(server: &str, tool: &str) -> (r: Option<String>)
    ensures
        opt_view(r) == known_as(server@, tool@),
{
    if tool.is_empty() {
        None
    } else {
        Some(owned("mcp::").concat(server).concat("::").concat(tool))
    }
}

/// The position of the server of the given name, from `i` on.
pub open spec fn position_of(configs: Seq<McpServerConfig>, name: Seq<char>, i: int) -> Option<int>
    decreases configs.len() - i,
{
    if i < 0 || i >= configs.len() {
        None
    } else if configs[i].name@ == name {
        Some(i)
    } else {
        position_of(configs, name, i + 1)
    }
}

/// The server to start again, by its position; an error where there is none of that name.
pub fn find_server(configs: &Vec<McpServerConfig>, server_id: &str) -> (r: Result<usize, McpError>)
    ensures
        match r {
            Ok(i) => position_of(configs@, server_id@, 0) == Some(i as int),
            Err(error) => position_of(configs@, server_id@, 0) is None && (error matches
                McpError::Protocol(text) && text@ == "server "@ + server_id@ + " 未配置"@),
        },
{
    let mut i: usize = 0;
    while i < configs.len()
        invariant
            i <= configs@.len(),
            position_of(configs@, server_id@, 0) == position_of(configs@, server_id@, i as int),
        decreases configs@.len() - i,
    {
        if same(configs[i].name.as_str(), server_id) {
            return Ok(i);
        }
        i += 1;
    }
    Err(McpError::Protocol(owned("server ").concat(server_id).concat(" 未配置")))
}

/// A text with spaces behind it, so that it is at least `width` characters long.
pub open spec fn widened(text: Seq<char>, width: int) -> Seq<char> {
    if text.len() < width {
        text + Seq::new((width - text.len()) as nat, |i: int| ' ')
    } else {
        text
    }
}

fn widen(text: &str, width: usize) -> (r: String)
    ensures
        r@ == widened(text@, width as int),
{
    let chars = to_chars(text);
    let count: usize = chars.len();
    let mut out = owned(text);
    let mut i: usize = count;
    assert(out@ =~= text@ + Seq::new(0, |i: int| ' '));
    while i < width
        invariant
            count == text@.len(),
            count <= i,
            i <= width || i == count,
            out@ == text@ + Seq::new((i - count) as nat, |i: int| ' '),
        decreases width - i,
    {
        out.push(' ');
        i += 1;
        assert(out@ =~= text@ + Seq::new((i - count) as nat, |i: int| ' '));
    }
    assert(out@ =~= widened(text@, width as int));
    out
}

/// A line about a server.
pub open spec fn status_line(state: ServerStateView) -> Seq<char> {
    widened(state.name, 10) + match state.status {
        McpServerStatus::Connected { tool_count } => " connected         "@ + decimal_of(
            tool_count as nat,
        ) + "\n"@,
        McpServerStatus::Failed(detail) => " failed            -\n  "@ + detail@ + "\n"@,
        McpServerStatus::Stopped => " stopped           0\n"@,
    }
}

/// The lines about some servers.
pub open spec fn status_lines(states: Seq<ServerStateView>) -> Seq<char>
    decreases states.len(),
{
    if states.len() == 0 {
        Seq::empty()
    } else {
        status_lines(states.drop_last()) + status_line(states.last())
    }
}

/// What is shown of the servers: how to name one where there is none, and a table otherwise.
pub open spec fn status_page(states: Seq<ServerStateView>) -> Seq<char> {
    if states.len() == 0 {
        "未配置 MCP server。\n\n在 ~/.tpi/config.toml 添加：\n[mcp.servers.<name>]\ncommand = \"...\"\nargs = []\nenabled = true"@
    } else {
        "Server     Status            Tools\n---------  ----------------  -----\n"@
            + status_lines(states)
    }
}

/// What is shown of the servers.
pub fn render_mcp_status(states: &Vec<ServerState>) -> (r: String)
    ensures
        r@ == status_page(views(states@)),
{
    let ghost all = views(states@);
    assert(all.len() == states@.len());
    if states.len() == 0 {
        return owned(
            "未配置 MCP server。\n\n在 ~/.tpi/config.toml 添加：\n[mcp.servers.<name>]\ncommand = \"...\"\nargs = []\nenabled = true",
        );
    }
    let mut out = owned("Server     Status            Tools\n---------  ----------------  -----\n");
    let ghost head = out@;
    let mut i: usize = 0;
    assert(out@ =~= head + status_lines(all.take(0)));
    while i < states.len()
        invariant
            i <= states@.len(),
            all == views(states@),
            out@ == head + status_lines(all.take(i as int)),
        decreases states@.len() - i,
    {
        proof {
            let next = all.take(i + 1);
            assert(next.drop_last() =~= all.take(i as int));
            assert(next.last() == states@[i as int]@);
        }
        let name = widen(states[i].name.as_str(), 10);
        let line = match &states[i].status {
            McpServerStatus::Connected { tool_count } => {
                let count = decimal(*tool_count as u128);
                name.concat(" connected         ").concat(count.as_str()).concat("\n")
            },
            McpServerStatus::Failed(detail) => name.concat(
                " failed            -\n  ",
            ).concat(detail.as_str()).concat("\n"),
            McpServerStatus::Stopped => name.concat(" stopped           0\n"),
        };
        assert(line@ =~= status_line(states@[i as int]@));
        out.append(line.as_str());
        assert(out@ =~= head + status_lines(all.take(i + 1)));
        i += 1;
    }
    assert(all.take(i as int) =~= all);
    out
}

/// What is said when servers have been started; nothing where there are none.
pub fn started_notice(started: usize) -> (r: Option<String>)
    ensures
        opt_view(r) == if started == 0 {
            None
        } else {
            Some("MCP: "@ + decimal_of(started as nat) + " 个 server 已启动（/mcp 查看状态）"@)
        },
{
    if started == 0 {
        None
    } else {
        let count = decimal(started as u128);
        Some(
            owned("MCP: ").concat(count.as_str()).concat(" 个 server 已启动（/mcp 查看状态）"),
        )
    }
}

} // verus!
