//! Shell commands on another machine.
//!
//! A command runs in a fresh shell. What the session remembers, its directory and its
//! variables, is set up before the command, and read off after it: the shell prints them
//! between two marks that no output can hold by chance.
use crate::bytes::copy_range;
use crate::bytes::lossy;
use crate::bytes::lossy_text;
use crate::outcome::outcome_of;
use crate::outcome::status_str;
use crate::outcome::status_text;
use crate::outcome::ModelPayload;
use crate::outcome::ModelPayloadView;
use crate::outcome::OutcomeView;
use crate::outcome::StoredToolOutcome;
use crate::outcome::ToolStatus;
use crate::text::decimal;
use crate::text::decimal_of;
use crate::text::find_of;
use crate::text::lemma_find;
use crate::text::lines;
use crate::text::lines_of;
use crate::text::opt_view;
use crate::text::owned;
use crate::text::replace;
use crate::text::replace_of;
use crate::text::same;
use crate::text::signed;
use crate::text::signed_of;
use crate::text::split_once;
use crate::text::split_once_of;
use crate::text::trim;
use crate::text::trim_of;
use crate::text::views;
use vstd::prelude::*;
use vstd::string::*;

verus! {

/// A text in single quotes, for a shell.
pub open spec fn quoted(value: Seq<char>) -> Seq<char> {
    "'"@ + replace_of(value, "'"@, "'\\''"@) + "'"@
}

/// A text in single quotes, for a shell.
pub fn shell_quote(value: &str) -> (r: String)
    ensures
        r@ == quoted(value@),
{
    proof {
        reveal_strlit("'");
    }
    let inner = replace(value, "'", "'\\''");
    owned("'").concat(inner.as_str()).concat("'")
}

/// What a shell reads from a word that is made of nothing but single quotes and escaped
/// characters: the text that the word stands for. There is none where a character stands
/// outside of quotes, or a quote is left open.
pub open spec fn shell_word(s: Seq<char>, inside: bool) -> Option<Seq<char>>
    decreases s.len(),
{
    if s.len() == 0 {
        if inside {
            None
        } else {
            Some(Seq::empty())
        }
    } else if s[0] == '\'' {
        shell_word(s.skip(1), !inside)
    } else if inside {
        match shell_word(s.skip(1), true) {
            Some(rest) => Some(seq![s[0]] + rest),
            None => None,
        }
    } else if s[0] == '\\' && s.len() >= 2 {
        match shell_word(s.skip(2), false) {
            Some(rest) => Some(seq![s[1]] + rest),
            None => None,
        }
    } else {
        None
    }
}

proof fn lemma_inside(plain: Seq<char>, rest: Seq<char>)
    requires
        forall|i: int| 0 <= i < plain.len() ==> plain[i] != '\'',
    ensures
        shell_word(plain + rest, true) == match shell_word(rest, true) {
            Some(text) => Some(plain + text),
            None => None,
        },
    decreases plain.len(),
{
    if plain.len() == 0 {
        assert(plain + rest =~= rest);
        if let Some(text) = shell_word(rest, true) {
            assert(plain + text =~= text);
        }
    } else {
        let s = plain + rest;
        assert(s.skip(1) =~= plain.skip(1) + rest);
        lemma_inside(plain.skip(1), rest);
        if let Some(text) = shell_word(rest, true) {
            assert(seq![s[0]] + (plain.skip(1) + text) =~= plain + text);
        }
    }
}

proof fn lemma_quoted(value: Seq<char>)
    ensures
        shell_word(replace_of(value, "'"@, "'\\''"@) + "'"@, true) == Some(value),
    decreases value.len(),
{
    reveal_strlit("'");
    reveal_strlit("'\\''");
    lemma_find(value, "'"@);
    let end = "'"@;
    assert(end.skip(1) =~= Seq::<char>::empty());
    assert(shell_word(end.skip(1), false) == Some(Seq::<char>::empty()));
    assert(shell_word(end, true) == Some(Seq::<char>::empty()));
    match find_of(value, "'"@) {
        None => {
            assert forall|i: int| 0 <= i < value.len() implies value[i] != '\'' by {
                if value[i] == '\'' {
                    assert(value.subrange(i, i + 1) =~= "'"@);
                    assert(crate::text::occurs_at(value, "'"@, i));
                }
            }
            lemma_inside(value, end);
            assert(value + Seq::<char>::empty() =~= value);
        },
        Some(k) => {
            let front = value.subrange(0, k);
            let tail = value.subrange(k + 1, value.len() as int);
            let more = replace_of(tail, "'"@, "'\\''"@) + end;
            assert forall|i: int| 0 <= i < front.len() implies front[i] != '\'' by {
                if value[i] == '\'' {
                    assert(value.subrange(i, i + 1) =~= "'"@);
                    assert(crate::text::occurs_at(value, "'"@, i));
                }
            }
            assert(crate::text::occurs_at(value, "'"@, k));
            assert(value.subrange(k, k + 1)[0] == value[k]);
            assert(value[k] == '\'');
            let rest = "'\\''"@ + more;
            assert(replace_of(value, "'"@, "'\\''"@) + end =~= front + rest);
            lemma_inside(front, rest);
            lemma_quoted(tail);
            assert(rest.skip(1).skip(2) =~= rest.skip(3));
            assert(rest.skip(3).skip(1) =~= more);
            assert(rest[0] == '\'');
            assert(rest.skip(1)[0] == '\\');
            assert(rest.skip(1)[1] == '\'');
            assert(rest.skip(3)[0] == '\'');
            assert(shell_word(rest.skip(3), false) == Some(tail));
            assert(shell_word(rest.skip(1), false) == Some(seq!['\''] + tail));
            assert(shell_word(rest, true) == Some(seq!['\''] + tail));
            assert(front + (seq!['\''] + tail) =~= value);
        },
    }
}

/// A shell reads a quoted text as exactly that text, whatever it holds.
pub proof fn quoting_is_safe(value: Seq<char>)
    ensures
        shell_word(quoted(value), false) == Some(value),
{
    reveal_strlit("'");
    lemma_quoted(value);
    let inner = replace_of(value, "'"@, "'\\''"@) + "'"@;
    assert(quoted(value) =~= "'"@ + inner);
    assert(quoted(value).skip(1) =~= inner);
}

/// Variables that a session has set.
pub open spec fn exports(set: Seq<(Seq<char>, Seq<char>)>) -> Seq<char>
    decreases set.len(),
{
    if set.len() == 0 {
        Seq::empty()
    } else {
        exports(set.drop_last()) + "export "@ + set.last().0 + "="@ + quoted(set.last().1)
            + "; "@
    }
}

/// Variables that a session has removed.
pub open spec fn removals(unset: Seq<Seq<char>>) -> Seq<char>
    decreases unset.len(),
{
    if unset.len() == 0 {
        Seq::empty()
    } else {
        removals(unset.drop_last()) + "unset "@ + unset.last() + "; "@
    }
}

/// What a shell is told to print after a command: its directory and its variables, between
/// marks that hold `nonce`.
pub open spec fn capture_command(nonce: Seq<char>) -> Seq<char> {
    "printf '\\n__TPI_CAPTURE_BEGIN_"@ + nonce
        + "__\\n'; printf '%s\\n' \"$PWD\"; env; printf '__TPI_CAPTURE_END_"@ + nonce + "__\\n'"@
}

/// What a shell is told to print after a command.
pub fn capture_script(nonce: &str) -> (r: String)
    ensures
        r@ == capture_command(nonce@),
{
    owned("printf '\\n__TPI_CAPTURE_BEGIN_").concat(nonce).concat(
        "__\\n'; printf '%s\\n' \"$PWD\"; env; printf '__TPI_CAPTURE_END_",
    ).concat(nonce).concat("__\\n'")
}

/// Names with values.
pub open spec fn pair_views(pairs: Seq<(String, String)>) -> Seq<(Seq<char>, Seq<char>)> {
    Seq::new(pairs.len(), |i: int| (pairs[i].0@, pairs[i].1@))
}

/// What is sent for a command: the state of the session, the command, and what to print
/// after it; the shell ends as the command did.
pub open spec fn full_command(
    set: Seq<(Seq<char>, Seq<char>)>,
    unset: Seq<Seq<char>>,
    directory: Seq<char>,
    command: Seq<char>,
    nonce: Seq<char>,
) -> Seq<char> {
    exports(set) + removals(unset) + "cd "@ + quoted(directory) + "; "@ + command
        + "\n__tpi_s=$?\n"@ + capture_command(nonce) + "\nexit $__tpi_s"@
}

/// What is sent for a command.
pub fn remote_script(
    set: &Vec<(String, String)>,
    unset: &Vec<String>,
    directory: &str,
    command: &str,
    nonce: &str,
) -> (r: String)
    ensures
        r@ == full_command(pair_views(set@), views(unset@), directory@, command@, nonce@),
{
    let mut prefix = String::new();
    let ghost pairs = pair_views(set@);
    let mut i: usize = 0;
    assert(prefix@ =~= exports(pairs.take(0)));
    while i < set.len()
        invariant
            i <= set@.len(),
            pairs == pair_views(set@),
            prefix@ == exports(pairs.take(i as int)),
        decreases set@.len() - i,
    {
        proof {
            let next = pairs.take(i + 1);
            assert(next.drop_last() =~= pairs.take(i as int));
            assert(next.last() == (set@[i as int].0@, set@[i as int].1@));
        }
        let value = shell_quote(set[i].1.as_str());
        prefix.append("export ");
        prefix.append(set[i].0.as_str());
        prefix.append("=");
        prefix.append(value.as_str());
        prefix.append("; ");
        i += 1;
    }
    assert(pairs.take(i as int) =~= pairs);
    let ghost first = prefix@;
    let ghost names = views(unset@);
    let mut i: usize = 0;
    assert(prefix@ =~= first + removals(names.take(0)));
    while i < unset.len()
        invariant
            i <= unset@.len(),
            names == views(unset@),
            prefix@ == first + removals(names.take(i as int)),
        decreases unset@.len() - i,
    {
        proof {
            let next = names.take(i + 1);
            assert(next.drop_last() =~= names.take(i as int));
            assert(next.last() == unset@[i as int]@);
        }
        prefix.append("unset ");
        prefix.append(unset[i].as_str());
        prefix.append("; ");
        assert(prefix@ =~= first + removals(names.take(i + 1)));
        i += 1;
    }
    assert(names.take(i as int) =~= names);
    let place = shell_quote(directory);
    let capture = capture_script(nonce);
    prefix.concat("cd ").concat(place.as_str()).concat("; ").concat(command).concat(
        "\n__tpi_s=$?\n",
    ).concat(capture.as_str()).concat("\nexit $__tpi_s")
}

/// The variables of a shell.
#[derive(Debug, Clone, PartialEq, Eq)]
pub struct Environment {
    entries: Vec<(String, String)>,
}

/// The variables that entries name; of two with one name the later counts.
pub open spec fn variables(entries: Seq<(String, String)>) -> Map<Seq<char>, Seq<char>>
    decreases entries.len(),
{
    if entries.len() == 0 {
        Map::empty()
    } else {
        variables(entries.drop_last()).insert(entries.last().0@, entries.last().1@)
    }
}

impl View for Environment {
    type V = Map<Seq<char>, Seq<char>>;

    closed spec fn view(&self) -> Map<Seq<char>, Seq<char>> {
        variables(self.entries@)
    }
}

impl Environment {
    /// No variables.
    pub fn new() -> (r: Self)
        ensures
            r@ == Map::<Seq<char>, Seq<char>>::empty(),
    {
        Environment { entries: Vec::new() }
    }

    /// Sets a variable.
    pub fn insert(&mut self, name: String, value: String)
        ensures
            final(self)@ == old(self)@.insert(name@, value@),
    {
        let ghost before = self.entries@;
        self.entries.push((name, value));
        assert(self.entries@.drop_last() =~= before);
    }

    /// The value of a variable.
    pub fn get(&self, name: &str) -> (r: Option<&str>)
        ensures
            match r {
                Some(value) => self@.contains_key(name@) && self@[name@] == value@,
                None => !self@.contains_key(name@),
            },
    {
        let mut i: usize = self.entries.len();
        assert(self.entries@.take(i as int) =~= self.entries@);
        while i > 0
            invariant
                i <= self.entries@.len(),
                self@.contains_key(name@) == variables(
                    self.entries@.take(i as int),
                ).contains_key(name@),
                self@.contains_key(name@) ==> self@[name@] == variables(
                    self.entries@.take(i as int),
                )[name@],
            decreases i,
        {
            proof {
                let now = self.entries@.take(i as int);
                assert(now.drop_last() =~= self.entries@.take(i - 1));
                assert(now.last() == self.entries@[i - 1]);
            }
            i -= 1;
            if same(self.entries[i].0.as_str(), name) {
                return Some(self.entries[i].1.as_str());
            }
        }
        None
    }
}

/// A line without carriage returns at its end.
pub open spec fn without_returns(line: Seq<char>) -> Seq<char>
    decreases line.len(),
{
    if line.len() > 0 && line.last() == '\r' {
        without_returns(line.drop_last())
    } else {
        line
    }
}

fn drop_returns(line: &str) -> (r: String)
    ensures
        r@ == without_returns(line@),
{
    let chars = crate::text::to_chars(line);
    let mut end: usize = chars.len();
    assert(line@.take(end as int) =~= line@);
    while end > 0 && chars[end - 1] == '\r'
        invariant
            end <= chars@.len(),
            chars@ == line@,
            without_returns(line@.take(end as int)) == without_returns(line@),
        decreases end,
    {
        assert(line@.take(end as int).drop_last() =~= line@.take(end - 1));
        end -= 1;
    }
    assert(line@.take(end as int) =~= chars@.subrange(0, end as int));
    crate::text::slice(&chars, 0, end)
}

/// The variables that lines name, from line 1 on: a name, `=` and the value, which may hold
/// `=` itself.
pub open spec fn env_of(all: Seq<Seq<char>>, n: int) -> Map<Seq<char>, Seq<char>>
    decreases n,
{
    if n <= 1 {
        Map::empty()
    } else {
        let before = env_of(all, n - 1);
        match split_once_of(without_returns(all[n - 1]), '=') {
            Some((name, value)) => before.insert(name, value),
            None => before,
        }
    }
}

/// The directory that lines name: the first line, where there is something on it.
pub open spec fn cwd_of(all: Seq<Seq<char>>) -> Option<Seq<char>> {
    if all.len() > 0 && trim_of(all[0]).len() > 0 {
        Some(trim_of(all[0]))
    } else {
        None
    }
}

/// What a shell printed between the marks: its directory and its variables.
pub fn parse_capture(capture: &[u8]) -> (r: (Option<String>, Environment))
    ensures
        opt_view(r.0) == cwd_of(lines_of(lossy_text(capture@))),
        r.1@ == env_of(
            lines_of(lossy_text(capture@)),
            lines_of(lossy_text(capture@)).len() as int,
        ),
{
    let text = lossy(capture);
    let all = lines(text.as_str());
    let ghost whole = lines_of(text@);
    assert(whole.len() == all@.len());
    let mut env = Environment::new();
    if all.len() == 0 {
        return (None, env);
    }
    assert(whole[0] == all@[0]@);
    let first = trim(all[0].as_str());
    let cwd = if first.as_str().is_empty() {
        None
    } else {
        Some(first)
    };
    let mut i: usize = 1;
    while i < all.len()
        invariant
            1 <= i <= all@.len(),
            views(all@) == whole,
            env@ == env_of(whole, i as int),
        decreases all@.len() - i,
    {
        assert(whole[i as int] == all@[i as int]@);
        let line = drop_returns(all[i].as_str());
        if let Some((name, value)) = split_once(line.as_str(), '=') {
            env.insert(name, value);
        }
        i += 1;
    }
    (cwd, env)
}

/// The outcome of a remote command that did not run to its end.
pub open spec fn remote_outcome(status: ToolStatus, rest: Seq<char>) -> OutcomeView {
    outcome_of(
        "bash"@,
        ModelPayloadView {
            status,
            program: Some("ssh"@),
            exit_code: None,
            duration_ms: 0,
            output: "status: "@ + status_text(status) + "\ntool: bash\nerror: "@ + rest,
            effect: None,
            artifact: None,
        },
    )
}

fn outcome(status: ToolStatus, rest: &str) -> (r: StoredToolOutcome)
    ensures
        r@ == remote_outcome(status, rest@),
{
    let name = status_str(status);
    let output = owned("status: ").concat(name).concat("\ntool: bash\nerror: ").concat(rest);
    StoredToolOutcome::failed(
        "bash",
        ModelPayload {
            status,
            program: Some(owned("ssh")),
            exit_code: None,
            duration_ms: 0,
            output,
            effect: None,
            artifact: None,
        },
    )
}

/// The outcome of a command that is not run.
pub fn rejected(code: &str, detail: &str) -> (r: StoredToolOutcome)
    ensures
        r@ == remote_outcome(ToolStatus::Rejected, code@ + "\n\n"@ + detail@),
{
    let rest = owned(code).concat("\n\n").concat(detail);
    outcome(ToolStatus::Rejected, rest.as_str())
}

/// Why a command is not run: there is none, or it would have no time or too much.
pub open spec fn refusal_of(command: Seq<char>, timeout_ms: u64, max_ms: u64) -> Option<
    OutcomeView,
> {
    if trim_of(command).len() == 0 {
        Some(
            remote_outcome(
                ToolStatus::Rejected,
                "empty_command"@ + "\n\n"@ + "command 不能为空。"@,
            ),
        )
    } else if timeout_ms == 0 || timeout_ms > max_ms {
        Some(
            remote_outcome(
                ToolStatus::Rejected,
                "invalid_timeout"@ + "\n\n"@ + ("timeout_ms 必须在 1..="@ + decimal_of(
                    max_ms as nat,
                ) + " 范围内。"@),
            ),
        )
    } else {
        None
    }
}

/// Why a command is not run.
pub fn check_command(command: &str, timeout_ms: u64, max_ms: u64) -> (r: Option<StoredToolOutcome>)
    ensures
        opt_view(r) == refusal_of(command@, timeout_ms, max_ms),
{
    let text = trim(command);
    if text.as_str().is_empty() {
        return Some(rejected("empty_command", "command 不能为空。"));
    }
    if timeout_ms == 0 || timeout_ms > max_ms {
        let limit = decimal(max_ms as u128);
        let detail = owned("timeout_ms 必须在 1..=").concat(limit.as_str()).concat(
            " 范围内。",
        );
        return Some(rejected("invalid_timeout", detail.as_str()));
    }
    None
}

/// Why a remote command did not run to its end.
#[derive(Debug)]
pub enum RemoteFailure {
    /// The key of the machine is not confirmed.
    HostKey(String),
    /// The machine cannot be reached.
    Connect(String),
    /// It took too long.
    TimedOut,
    /// The user cancelled it.
    Cancelled,
    /// It could not be run.
    Exec(String),
}

/// The outcome of a remote command that did not run to its end.
pub open spec fn failure_outcome(failure: RemoteFailure) -> OutcomeView {
    match failure {
        RemoteFailure::HostKey(decision) => remote_outcome(
            ToolStatus::Failed,
            "ssh_host_key\n\nhost key 未确认（"@ + decision@
                + "）：请先由用户确认后再重试。"@,
        ),
        RemoteFailure::Connect(error) => remote_outcome(
            ToolStatus::Failed,
            "ssh_connect_failed\n\n"@ + error@,
        ),
        RemoteFailure::TimedOut => remote_outcome(
            ToolStatus::TimedOut,
            "remote_timeout\n\n远端命令超时（best-effort 取消：远端进程可能仍在运行，§39）。"@,
        ),
        RemoteFailure::Cancelled => remote_outcome(
            ToolStatus::Cancelled,
            "remote_cancelled\n\n用户取消（best-effort：远端进程可能仍在运行，§39）。"@,
        ),
        RemoteFailure::Exec(error) => remote_outcome(
            ToolStatus::Failed,
            "ssh_exec_failed\n\n"@ + error@,
        ),
    }
}

/// The outcome of a remote command that did not run to its end.
pub fn remote_failure(failure: &RemoteFailure) -> (r: StoredToolOutcome)
    ensures
        r@ == failure_outcome(*failure),
{
    match failure {
        RemoteFailure::HostKey(decision) => {
            let rest = owned("ssh_host_key\n\nhost key 未确认（").concat(
                decision.as_str(),
            ).concat("）：请先由用户确认后再重试。");
            outcome(ToolStatus::Failed, rest.as_str())
        },
        RemoteFailure::Connect(error) => {
            let rest = owned("ssh_connect_failed\n\n").concat(error.as_str());
            outcome(ToolStatus::Failed, rest.as_str())
        },
        RemoteFailure::TimedOut => outcome(
            ToolStatus::TimedOut,
            "remote_timeout\n\n远端命令超时（best-effort 取消：远端进程可能仍在运行，§39）。",
        ),
        RemoteFailure::Cancelled => outcome(
            ToolStatus::Cancelled,
            "remote_cancelled\n\n用户取消（best-effort：远端进程可能仍在运行，§39）。",
        ),
        RemoteFailure::Exec(error) => {
            let rest = owned("ssh_exec_failed\n\n").concat(error.as_str());
            outcome(ToolStatus::Failed, rest.as_str())
        },
    }
}

/// The last bytes, at most `budget`.
pub open spec fn last_bytes(bytes: Seq<u8>, budget: int) -> Seq<u8> {
    if bytes.len() > budget {
        bytes.skip(bytes.len() - budget)
    } else {
        bytes
    }
}

/// A text with the end of a stream behind it, under the name of the stream.
pub open spec fn with_tail(body: Seq<char>, name: Seq<char>, bytes: Seq<u8>, budget: int) -> Seq<
    char,
> {
    if bytes.len() == 0 {
        body
    } else {
        (if body.len() == 0 {
            body
        } else {
            body + "\n"@
        }) + "--- "@ + name + " ---\n"@ + lossy_text(last_bytes(bytes, budget))
    }
}

/// Adds the end of a stream to a text, at most `budget` bytes of it, and notes whether some
/// of it was left out.
pub fn push_tail(body: &mut String, name: &str, bytes: &[u8], budget: usize, truncated: &mut bool)
    ensures
        final(body)@ == with_tail(old(body)@, name@, bytes@, budget as int),
        *final(truncated) == (*old(truncated) || bytes@.len() > budget),
{
    let count: usize = bytes.len();
    if count == 0 {
        return;
    }
    let keep: usize = if count > budget {
        budget
    } else {
        count
    };
    if keep < count {
        *truncated = true;
    }
    let ghost before = body@;
    if !body.as_str().is_empty() {
        body.append("\n");
    }
    body.append("--- ");
    body.append(name);
    body.append(" ---\n");
    let tail = copy_range(bytes, count - keep, count);
    assert(tail@ =~= last_bytes(bytes@, budget as int));
    let text = lossy(tail.as_slice());
    body.append(text.as_str());
    assert(body@ =~= with_tail(before, name@, bytes@, budget as int));
}

/// What a remote command printed, and how it ended.
#[derive(Debug)]
pub struct RemoteResult {
    pub stdout: Vec<u8>,
    pub stderr: Vec<u8>,
    pub exit_code: Option<i32>,
    pub duration_ms: u64,
}

/// Both streams of a remote command, the end of each.
pub open spec fn both_tails(result: RemoteResult, budget: int) -> Seq<char> {
    with_tail(
        with_tail(Seq::empty(), "stdout"@, result.stdout@, budget),
        "stderr"@,
        result.stderr@,
        budget,
    )
}

/// What is said of how much a remote command printed.
pub open spec fn amount(result: RemoteResult, budget: int) -> Seq<char> {
    let total = result.stdout@.len() + result.stderr@.len();
    if result.stdout@.len() > budget || result.stderr@.len() > budget {
        "truncated ("@ + decimal_of(budget as nat) + "/"@ + decimal_of(total) + " bytes)"@
    } else {
        decimal_of(total) + " bytes"@
    }
}

/// How a remote command ended.
pub open spec fn remote_status(result: RemoteResult) -> ToolStatus {
    if result.exit_code == Some(0i32) {
        ToolStatus::Succeeded
    } else {
        ToolStatus::Failed
    }
}

/// What the model is told of a remote command.
pub open spec fn remote_summary(result: RemoteResult, budget: int) -> Seq<char> {
    let body = both_tails(result, budget);
    "status: "@ + status_text(remote_status(result)) + "\nprogram: ssh\nexit_code: "@ + (
    match result.exit_code {
        Some(code) => signed_of(code as int),
        None => "none"@,
    }) + "\nduration_ms: "@ + decimal_of(result.duration_ms as nat) + "\noutput: "@ + amount(
        result,
        budget,
    ) + (if body.len() == 0 {
        Seq::empty()
    } else {
        "\n"@
    }) + body
}

/// The outcome of a remote command that ran to its end.
pub fn remote_done(result: &RemoteResult, budget: usize) -> (r: StoredToolOutcome)
    requires
        result.stdout@.len() + result.stderr@.len() <= usize::MAX,
    ensures
        r@ == outcome_of(
            "bash"@,
            ModelPayloadView {
                status: remote_status(*result),
                program: Some("ssh"@),
                exit_code: result.exit_code,
                duration_ms: result.duration_ms,
                output: remote_summary(*result, budget as int),
                effect: None,
                artifact: None,
            },
        ),
{
    let status = match result.exit_code {
        Some(code) => if code == 0 {
            ToolStatus::Succeeded
        } else {
            ToolStatus::Failed
        },
        None => ToolStatus::Failed,
    };
    let total: usize = result.stdout.len() + result.stderr.len();
    let mut body = String::new();
    let mut truncated = false;
    push_tail(&mut body, "stdout", result.stdout.as_slice(), budget, &mut truncated);
    push_tail(&mut body, "stderr", result.stderr.as_slice(), budget, &mut truncated);
    let count = decimal(total as u128);
    let size = if truncated {
        let limit = decimal(budget as u128);
        owned("truncated (").concat(limit.as_str()).concat("/").concat(count.as_str()).concat(
            " bytes)",
        )
    } else {
        count.concat(" bytes")
    };
    let code = match result.exit_code {
        Some(code) => signed(code as i64),
        None => owned("none"),
    };
    let time = decimal(result.duration_ms as u128);
    let separator = if body.as_str().is_empty() {
        String::new()
    } else {
        owned("\n")
    };
    let output = owned("status: ").concat(status_str(status)).concat(
        "\nprogram: ssh\nexit_code: ",
    ).concat(code.as_str()).concat("\nduration_ms: ").concat(time.as_str()).concat(
        "\noutput: ",
    ).concat(size.as_str()).concat(separator.as_str()).concat(body.as_str());
    assert(output@ =~= remote_summary(*result, budget as int));
    StoredToolOutcome::failed(
        "bash",
        ModelPayload {
            status,
            program: Some(owned("ssh")),
            exit_code: result.exit_code,
            duration_ms: result.duration_ms,
            output,
            effect: None,
            artifact: None,
        },
    )
}

/// What a session knows of a shell on another machine.
#[derive(Debug)]
pub struct ShellState {
    /// The directory that commands run in.
    pub cwd: String,
    /// The variables that the session has set.
    pub set: Vec<(String, String)>,
    /// The variables that the session has taken away.
    pub unset: Vec<String>,
    /// The variables that the machine began with, where they are known.
    pub baseline: Option<Environment>,
    /// How often the state has changed.
    pub version: u64,
}

/// What a [`ShellState`] holds.
pub struct ShellStateView {
    pub cwd: Seq<char>,
    pub set: Seq<(Seq<char>, Seq<char>)>,
    pub unset: Seq<Seq<char>>,
    pub baseline: Option<Map<Seq<char>, Seq<char>>>,
    pub version: u64,
}

impl View for ShellState {
    type V = ShellStateView;

    open spec fn view(&self) -> ShellStateView {
        ShellStateView {
            cwd: self.cwd@,
            set: pair_views(self.set@),
            unset: views(self.unset@),
            baseline: opt_view(self.baseline),
            version: self.version,
        }
    }
}

/// The state after a command that ran in `ran_in` and left the shell in the directory `cwd`.
/// `set` and `unset` say how its variables then differ from those that the machine began
/// with: they replace what the session held, as far as those are known. The version counts
/// the changes.
pub open spec fn committed(
    state: ShellStateView,
    cwd: Seq<char>,
    ran_in: Seq<char>,
    set: Seq<(Seq<char>, Seq<char>)>,
    unset: Seq<Seq<char>>,
) -> ShellStateView {
    let moved = cwd != ran_in;
    let differs = state.baseline is Some && !(set == state.set && unset == state.unset);
    ShellStateView {
        cwd: if moved {
            cwd
        } else {
            state.cwd
        },
        set: if differs {
            set
        } else {
            state.set
        },
        unset: if differs {
            unset
        } else {
            state.unset
        },
        baseline: state.baseline,
        version: if moved || differs {
            (state.version + 1) as u64
        } else {
            state.version
        },
    }
}

fn same_pairs(a: &Vec<(String, String)>, b: &Vec<(String, String)>) -> (r: bool)
    ensures
        r == (pair_views(a@) == pair_views(b@)),
{
    let ghost x = pair_views(a@);
    let ghost y = pair_views(b@);
    if a.len() != b.len() {
        assert(x.len() != y.len());
        return false;
    }
    let mut i: usize = 0;
    while i < a.len()
        invariant
            i <= a@.len() == b@.len(),
            x == pair_views(a@),
            y == pair_views(b@),
            forall|j: int| 0 <= j < i ==> #[trigger] x[j] == y[j],
        decreases a@.len() - i,
    {
        assert(x[i as int] == (a@[i as int].0@, a@[i as int].1@));
        assert(y[i as int] == (b@[i as int].0@, b@[i as int].1@));
        if !same(a[i].0.as_str(), b[i].0.as_str()) || !same(a[i].1.as_str(), b[i].1.as_str()) {
            assert(x[i as int] != y[i as int]);
            return false;
        }
        i += 1;
    }
    assert(x =~= y);
    true
}

fn same_names(a: &Vec<String>, b: &Vec<String>) -> (r: bool)
    ensures
        r == (views(a@) == views(b@)),
{
    let ghost x = views(a@);
    let ghost y = views(b@);
    if a.len() != b.len() {
        assert(x.len() != y.len());
        return false;
    }
    let mut i: usize = 0;
    while i < a.len()
        invariant
            i <= a@.len() == b@.len(),
            x == views(a@),
            y == views(b@),
            forall|j: int| 0 <= j < i ==> #[trigger] x[j] == y[j],
        decreases a@.len() - i,
    {
        assert(x[i as int] == a@[i as int]@);
        assert(y[i as int] == b@[i as int]@);
        if !same(a[i].as_str(), b[i].as_str()) {
            assert(x[i as int] != y[i as int]);
            return false;
        }
        i += 1;
    }
    assert(x =~= y);
    true
}

impl ShellState {
    /// Takes in the variables that the machine began with.
    pub fn begin_with(&mut self, baseline: Environment)
        ensures
            final(self)@ == (ShellStateView { baseline: Some(baseline@), ..old(self)@ }),
    {
        self.baseline = Some(baseline);
    }

    /// Takes in the state of the shell after a command that ran in `ran_in`: the directory
    /// that it printed, and how its variables differ from those that the machine began with.
    /// Where the shell printed no directory, nothing changes.
    pub fn commit(
        &mut self,
        captured_cwd: &Option<String>,
        ran_in: &str,
        set: Vec<(String, String)>,
        unset: Vec<String>,
    )
        requires
            old(self)@.version < u64::MAX,
        ensures
            final(self)@ == match *captured_cwd {
                Some(cwd) => committed(
                    old(self)@,
                    cwd@,
                    ran_in@,
                    pair_views(set@),
                    views(unset@),
                ),
                None => old(self)@,
            },
    {
        if let Some(cwd) = captured_cwd {
            let moved = !same(cwd.as_str(), ran_in);
            let differs = self.baseline.is_some() && !(same_pairs(&set, &self.set) && same_names(
                &unset,
                &self.unset,
            ));
            if moved {
                self.cwd = cwd.clone();
            }
            if differs {
                self.set = set;
                self.unset = unset;
            }
            if moved || differs {
                self.version = self.version + 1;
            }
        }
    }
}

/// A command that leaves the shell as the last one did changes nothing.
pub proof fn the_same_state_is_no_change(
    state: ShellStateView,
    cwd: Seq<char>,
    ran_in: Seq<char>,
    set: Seq<(Seq<char>, Seq<char>)>,
    unset: Seq<Seq<char>>,
)
    ensures
        ({
            let after = committed(state, cwd, ran_in, set, unset);
            committed(after, cwd, cwd, set, unset) == after
        }),
{
}

} // verus!
