//! Which servers there are.
use crate::order::at_most;
use crate::order::text_le;
use crate::text::opt_view;
use crate::text::views;
use crate::text::views_push;
use vstd::prelude::*;
use vstd::string::*;

verus! {

/// How long a call may take, in milliseconds, where nothing else is said.
pub const DEFAULT_TIMEOUT_MS: u64 = 30000;

/// A server.
#[derive(Debug, Clone, PartialEq, Eq)]
pub struct McpServerConfig {
    pub name: String,
    pub command: String,
    pub args: Vec<String>,
    pub env: Vec<(String, String)>,
    pub enabled: bool,
    /// How long a call may take, in milliseconds; at least one.
    pub timeout_ms: u64,
}

/// What a [`McpServerConfig`] says.
pub struct McpServerView {
    pub name: Seq<char>,
    pub command: Seq<char>,
    pub args: Seq<String>,
    pub env: Seq<(String, String)>,
    pub enabled: bool,
    pub timeout_ms: u64,
}

impl View for McpServerConfig {
    type V = McpServerView;

    open spec fn view(&self) -> McpServerView {
        McpServerView {
            name: self.name@,
            command: self.command@,
            args: self.args@,
            env: self.env@,
            enabled: self.enabled,
            timeout_ms: self.timeout_ms,
        }
    }
}

/// A server as the configuration file names it.
#[derive(Debug)]
pub struct ServerEntry {
    pub name: String,
    pub command: Option<String>,
    pub args: Option<Vec<String>>,
    pub env: Option<Vec<(String, String)>>,
    pub enabled: Option<bool>,
    pub timeout_ms: Option<u64>,
}

/// The server that an entry names: none without a command; enabled, with the default time
/// and nothing else, where it says no more.
pub open spec fn server_of(entry: ServerEntry) -> Option<McpServerView> {
    match entry.command {
        Some(command) => if command@.len() == 0 {
            None
        } else {
            Some(
                McpServerView {
                    name: entry.name@,
                    command: command@,
                    args: match entry.args {
                        Some(args) => args@,
                        None => Seq::empty(),
                    },
                    env: match entry.env {
                        Some(env) => env@,
                        None => Seq::empty(),
                    },
                    enabled: match entry.enabled {
                        Some(enabled) => enabled,
                        None => true,
                    },
                    timeout_ms: match entry.timeout_ms {
                        Some(0) => 1,
                        Some(ms) => ms,
                        None => DEFAULT_TIMEOUT_MS,
                    },
                },
            )
        },
        None => None,
    }
}

/// Where a server belongs among servers in order: behind all that come no later.
pub open spec fn slot(sorted: Seq<McpServerView>, server: McpServerView) -> int
    decreases sorted.len(),
{
    if sorted.len() == 0 || text_le(sorted.last().name, server.name) {
        sorted.len() as int
    } else {
        slot(sorted.drop_last(), server)
    }
}

/// The servers that entries name, in the order of their names.
pub open spec fn servers_of(entries: Seq<ServerEntry>) -> Seq<McpServerView>
    decreases entries.len(),
{
    if entries.len() == 0 {
        Seq::empty()
    } else {
        let before = servers_of(entries.drop_last());
        match server_of(entries.last()) {
            Some(server) => before.insert(slot(before, server), server),
            None => before,
        }
    }
}

fn server(entry: ServerEntry) -> (r: Option<McpServerConfig>)
    ensures
        opt_view(r) == server_of(entry),
{
    match entry.command {
        Some(command) => if command.as_str().is_empty() {
            None
        } else {
            let timeout_ms: u64 = match entry.timeout_ms {
                Some(0) => 1,
                Some(ms) => ms,
                None => DEFAULT_TIMEOUT_MS,
            };
            let made = McpServerConfig {
                name: entry.name,
                command,
                args: match entry.args {
                    Some(args) => args,
                    None => Vec::new(),
                },
                env: match entry.env {
                    Some(env) => env,
                    None => Vec::new(),
                },
                enabled: match entry.enabled {
                    Some(enabled) => enabled,
                    None => true,
                },
                timeout_ms,
            };
            Some(made)
        },
        None => None,
    }
}

/// The servers that entries name, in the order of their names. Entries without a command
/// are left out.
pub fn load(entries: Vec<ServerEntry>) -> (r: Vec<McpServerConfig>)
    ensures
        views(r@) == servers_of(entries@),
{
    let ghost all = entries@;
    let mut rest = entries;
    let mut sorted: Vec<McpServerConfig> = Vec::new();
    let ghost mut done: int = 0;
    assert(views(sorted@) =~= servers_of(all.take(0)));
    assert(all.skip(0) =~= all);
    while rest.len() > 0
        invariant
            0 <= done <= all.len(),
            rest@ == all.skip(done),
            views(sorted@) == servers_of(all.take(done)),
        decreases rest@.len(),
    {
        let entry = rest.remove(0);
        proof {
            let next = all.take(done + 1);
            assert(next.drop_last() =~= all.take(done));
            assert(next.last() == entry);
            assert(rest@ =~= all.skip(done + 1));
            done = done + 1;
        }
        if let Some(server) = server(entry) {
            let ghost before = views(sorted@);
            let mut k: usize = sorted.len();
            assert(before.take(k as int) =~= before);
            assert(before.len() == sorted@.len());
            while k > 0 && !at_most(sorted[k - 1].name.as_str(), server.name.as_str())
                invariant
                    k <= sorted@.len(),
                    before == views(sorted@),
                    slot(before.take(k as int), server@) == slot(before, server@),
                decreases k,
            {
                assert(before.take(k as int).drop_last() =~= before.take(k - 1));
                assert(before.take(k as int).last() == sorted@[k - 1]@);
                k -= 1;
            }
            proof {
                if k > 0 {
                    assert(before.take(k as int).last() == sorted@[k - 1]@);
                }
            }
            sorted.insert(k, server);
            assert(views(sorted@) =~= before.insert(k as int, server@));
        }
    }
    assert(all.take(done) =~= all);
    sorted
}

/// The servers among some that are enabled.
pub open spec fn enabled_of(servers: Seq<McpServerView>) -> Seq<McpServerView>
    decreases servers.len(),
{
    if servers.len() == 0 {
        Seq::empty()
    } else {
        let before = enabled_of(servers.drop_last());
        if servers.last().enabled {
            before.push(servers.last())
        } else {
            before
        }
    }
}

/// The servers that entries name and that are enabled, in the order of their names.
pub fn load_enabled(entries: Vec<ServerEntry>) -> (r: Vec<McpServerConfig>)
    ensures
        views(r@) == enabled_of(servers_of(entries@)),
{
    let all = load(entries);
    let ghost servers = views(all@);
    let mut rest = all;
    let mut out: Vec<McpServerConfig> = Vec::new();
    let ghost mut done: int = 0;
    assert(views(out@) =~= enabled_of(servers.take(0)));
    assert(views(rest@) =~= servers.skip(0));
    while rest.len() > 0
        invariant
            0 <= done <= servers.len(),
            views(rest@) == servers.skip(done),
            views(out@) == enabled_of(servers.take(done)),
        decreases rest@.len(),
    {
        let ghost held = views(rest@);
        let ghost queue = rest@;
        assert(held.len() == rest@.len());
        let server = rest.remove(0);
        proof {
            assert(held[0] == server@);
            assert(servers.skip(done)[0] == servers[done]);
            let next = servers.take(done + 1);
            assert(next.drop_last() =~= servers.take(done));
            assert(next.last() == server@);
            assert forall|i: int| 0 <= i < rest@.len() implies #[trigger] views(rest@)[i]
                == servers.skip(done + 1)[i] by {
                assert(rest@[i] == queue[i + 1]);
                assert(held[i + 1] == servers.skip(done)[i + 1]);
            }
            assert(views(rest@) =~= servers.skip(done + 1));
            done = done + 1;
        }
        if server.enabled {
            proof {
                views_push(out@, server);
            }
            out.push(server);
        }
    }
    proof {
        assert(views(rest@).len() == 0);
        assert(servers.skip(done).len() == servers.len() - done);
        assert(servers.take(done) =~= servers);
    }
    out
}

proof fn lemma_slot(sorted: Seq<McpServerView>, server: McpServerView)
    ensures
        0 <= slot(sorted, server) <= sorted.len(),
        slot(sorted, server) > 0 ==> text_le(sorted[slot(sorted, server) - 1].name, server.name),
        forall|i: int|
            slot(sorted, server) <= i < sorted.len() ==> !text_le(
                (#[trigger] sorted[i]).name,
                server.name,
            ),
    decreases sorted.len(),
{
    if sorted.len() > 0 && !text_le(sorted.last().name, server.name) {
        lemma_slot(sorted.drop_last(), server);
        let k = slot(sorted, server);
        assert forall|i: int| k <= i < sorted.len() implies !text_le(
            (#[trigger] sorted[i]).name,
            server.name,
        ) by {
            if i < sorted.len() - 1 {
                assert(sorted.drop_last()[i] == sorted[i]);
            }
        }
    }
}

/// Servers come in the order of their names.
pub proof fn servers_are_in_order(entries: Seq<ServerEntry>)
    ensures
        forall|i: int, j: int|
            0 <= i < j < servers_of(entries).len() ==> text_le(
                (#[trigger] servers_of(entries)[i]).name,
                (#[trigger] servers_of(entries)[j]).name,
            ),
    decreases entries.len(),
{
    if entries.len() > 0 {
        let before = servers_of(entries.drop_last());
        servers_are_in_order(entries.drop_last());
        if let Some(server) = server_of(entries.last()) {
            crate::order::text_order_is_total();
            let r = crate::order::text_order();
            lemma_slot(before, server);
            let k = slot(before, server);
            let after = servers_of(entries);
            assert forall|i: int, j: int| 0 <= i < j < after.len() implies text_le(
                (#[trigger] after[i]).name,
                (#[trigger] after[j]).name,
            ) by {
                let a = if i < k {
                    i
                } else {
                    i - 1
                };
                let b = if j < k {
                    j
                } else {
                    j - 1
                };
                if i == k {
                    assert(after[j] == before[b]);
                    assert(r(before[b].name, server.name) || r(server.name, before[b].name));
                } else if j == k {
                    assert(after[i] == before[a]);
                    if a < k - 1 {
                        assert(text_le(before[a].name, before[k - 1].name));
                        assert(r(before[a].name, before[k - 1].name));
                        assert(r(before[k - 1].name, server.name));
                        assert(r(before[a].name, server.name));
                    }
                } else {
                    assert(after[i] == before[a]);
                    assert(after[j] == before[b]);
                }
            }
        }
    }
}

} // verus!
