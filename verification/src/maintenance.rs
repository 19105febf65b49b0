//! Keeping the user's files: the first configuration, old sessions, damaged ones.
use crate::clock::date_of;
use crate::clock::fmt_session_datetime;
use crate::clock::long_text;
use crate::ids::hyphenated;
use crate::ids::uuid_from_text;
use crate::ids::uuid_parse;
use crate::ids::SessionId;
use crate::text::decimal;
use crate::text::decimal_of;
use crate::text::ends_with;
use crate::text::has_suffix;
use crate::text::lower;
use crate::text::lower_of;
use crate::text::owned;
use crate::text::parse_unsigned;
use crate::text::same;
use crate::text::slice;
use crate::text::to_chars;
use crate::text::trim;
use crate::text::trim_of;
use crate::text::unsigned_value;
use crate::text::views;
use crate::text::white_space;
use crate::text::is_white_space;
use vstd::prelude::*;
use vstd::string::*;

verus! {

/// An answer without the space around it, or the default where it says nothing.
pub open spec fn answer_of(answer: Seq<char>, default: Seq<char>) -> Seq<char> {
    if trim_of(answer).len() == 0 {
        default
    } else {
        trim_of(answer)
    }
}

/// What an answer comes to: the answer without white space around it, or what counts where
/// there is none.
pub fn answer_or(answer: &str, default: &str) -> (r: String)
    ensures
        r@ == answer_of(answer@, default@),
{
    let trimmed = trim(answer);
    if trimmed.as_str().is_empty() {
        owned(default)
    } else {
        trimmed
    }
}

/// Whether an answer says yes.
pub open spec fn says_yes(answer: Seq<char>) -> bool {
    trim_of(answer).map_values(|c: char| lower_of(c)) == "y"@
}

/// Whether an answer is a yes.
pub fn is_yes(answer: &str) -> (r: bool)
    ensures
        r == says_yes(answer@),
{
    let trimmed = trim(answer);
    let small = lower(trimmed.as_str());
    same(small.as_str(), "y")
}

/// A line without what ends it.
pub open spec fn without_line_end(s: Seq<char>) -> Seq<char>
    decreases s.len(),
{
    if s.len() > 0 && (s.last() == '\r' || s.last() == '\n') {
        without_line_end(s.drop_last())
    } else {
        s
    }
}

/// The token on a line: what stands there without the line end; an error where nothing does.
pub open spec fn token_in(line: Seq<char>) -> Result<Seq<char>, Seq<char>> {
    if without_line_end(line).len() == 0 {
        Err("token 为空"@)
    } else {
        Ok(without_line_end(line))
    }
}

/// The token on a line; an error where there is none.
pub fn token_of(line: &str) -> (r: Result<String, String>)
    ensures
        match r {
            Ok(token) => token_in(line@) == Ok::<Seq<char>, Seq<char>>(token@),
            Err(error) => token_in(line@) == Err::<Seq<char>, Seq<char>>(error@),
        },
{
    let chars = to_chars(line);
    let mut end: usize = chars.len();
    assert(chars@.take(end as int) =~= line@);
    while end > 0 && (chars[end - 1] == '\r' || chars[end - 1] == '\n')
        invariant
            end <= chars@.len(),
            without_line_end(chars@.take(end as int)) == without_line_end(line@),
        decreases end,
    {
        assert(chars@.take(end as int).drop_last() =~= chars@.take(end - 1));
        end -= 1;
    }
    assert(chars@.subrange(0, end as int) =~= chars@.take(end as int));
    if end == 0 {
        Err(owned("token 为空"))
    } else {
        Ok(slice(&chars, 0, end))
    }
}

/// The scheme of an address, or why it is none.
pub uninterp spec fn url_scheme_of(text: Seq<char>) -> Result<Seq<char>, Seq<char>>;

/// What a result says.
pub open spec fn result_view(r: Result<String, String>) -> Result<Seq<char>, Seq<char>> {
    match r {
        Ok(text) => Ok(text@),
        Err(text) => Err(text@),
    }
}

/// `reqwest::Url::parse` reads an absolute address, and `Url::scheme` gives its scheme; an
/// error is given in words.
#[verifier::external_body]
fn url_scheme(text: &str) -> (r: Result<String, String>)
    ensures
        result_view(r) == url_scheme_of(text@),
{
    match reqwest::Url::parse(text) {
        Ok(url) => Ok(url.scheme().to_string()),
        Err(error) => Err(error.to_string()),
    }
}

/// A text as it is written in a TOML document.
pub uninterp spec fn toml_text_of(text: Seq<char>) -> Seq<char>;

/// `toml::Value::to_string`, of a text: the text as it is written in a TOML document.
#[verifier::external_body]
fn toml_text(text: &str) -> (r: String)
    ensures
        r@ == toml_text_of(text@),
{
    toml::Value::String(text.to_string()).to_string()
}

/// The answers that the first configuration is made of.
#[derive(Debug, Clone, PartialEq, Eq)]
pub struct InitialAnswers {
    pub provider: String,
    pub name: String,
    pub base_url: String,
    pub max_output: String,
    pub context_window: String,
    pub api_key_env: String,
}

/// Whether a text holds white space or an equals sign.
pub open spec fn breaks_a_name(name: Seq<char>) -> bool {
    exists|i: int| 0 <= i < name.len() && (#[trigger] name[i] == '=' || is_white_space(name[i]))
}

/// What is wrong with the answers, where something is. The scheme is that of the address.
pub open spec fn answers_fault(
    answers: InitialAnswers,
    scheme: Result<Seq<char>, Seq<char>>,
) -> Option<Seq<char>> {
    let output = unsigned_value(answers.max_output@, u32::MAX as int);
    let window = unsigned_value(answers.context_window@, u64::MAX as int);
    if output is None {
        Some("max_output_tokens 必须是 0..=4294967295 的整数"@)
    } else if window is None {
        Some("context_window 必须是非负整数"@)
    } else {
        match scheme {
            Err(error) => Some("base_url 无效: "@ + error),
            Ok(scheme) => if scheme != "http"@ && scheme != "https"@ {
                Some("base_url 只支持 http 或 https"@)
            } else if trim_of(answers.provider@).len() == 0 || trim_of(answers.name@).len() == 0
                || trim_of(answers.api_key_env@).len() == 0 {
                Some("provider、model name 与 API key 环境变量名不能为空"@)
            } else if breaks_a_name(answers.api_key_env@) {
                Some("API key 环境变量名不能包含空白或 `=`"@)
            } else if output == Some(0int) || window == Some(0int) || output->0 > window->0 {
                Some(
                    "token 上限必须大于 0，且 max_output_tokens 不能超过 context_window"@,
                )
            } else {
                None
            },
        }
    }
}

/// The first configuration.
pub open spec fn initial_config(answers: InitialAnswers) -> Seq<char> {
    "[model.primary]\nprovider = "@ + toml_text_of(answers.provider@) + "\nname = "@
        + toml_text_of(answers.name@) + "\nbase_url = "@ + toml_text_of(answers.base_url@)
        + "\nmax_output_tokens = "@ + decimal_of(
        unsigned_value(answers.max_output@, u32::MAX as int)->0 as nat,
    ) + "\ncontext_window = "@ + decimal_of(
        unsigned_value(answers.context_window@, u64::MAX as int)->0 as nat,
    ) + "\napi_key_env = "@ + toml_text_of(answers.api_key_env@)
        + "\n# price_input = 0.0       # 每百万输入 token 美元（可选）\n# price_output = 0.0      # 每百万输出 token 美元\n"@
}

fn breaks_name(name: &str) -> (r: bool)
    ensures
        r == breaks_a_name(name@),
{
    let chars = to_chars(name);
    let mut i: usize = 0;
    while i < chars.len()
        invariant
            i <= chars@.len(),
            chars@ == name@,
            forall|j: int|
                0 <= j < i ==> #[trigger] name@[j] != '=' && !is_white_space(name@[j]),
        decreases chars@.len() - i,
    {
        if chars[i] == '=' || white_space(chars[i]) {
            assert(name@[i as int] == '=' || is_white_space(name@[i as int]));
            return true;
        }
        i += 1;
    }
    false
}

fn blank(text: &str) -> (r: bool)
    ensures
        r == (trim_of(text@).len() == 0),
{
    let trimmed = trim(text);
    trimmed.as_str().is_empty()
}

/// What is wrong with the answers, by the scheme of the address.
pub fn check_answers(answers: &InitialAnswers, scheme: &Result<String, String>) -> (r: Result<
    (u32, u64),
    String,
>)
    ensures
        match answers_fault(*answers, result_view(*scheme)) {
            Some(fault) => r matches Err(error) && error@ == fault,
            None => r matches Ok((output, window)) && unsigned_value(
                answers.max_output@,
                u32::MAX as int,
            ) == Some(output as int) && unsigned_value(answers.context_window@, u64::MAX as int)
                == Some(window as int) && 0 < output <= window,
        },
{
    let output: u32 = match parse_unsigned(answers.max_output.as_str(), u32::MAX as u64) {
        Some(n) => {
            assert(n <= u32::MAX) by {
                assert(unsigned_value(answers.max_output@, u32::MAX as int) == Some(n as int));
            }
            n as u32
        },
        None => {
            return Err(owned("max_output_tokens 必须是 0..=4294967295 的整数"));
        },
    };
    let window: u64 = match parse_unsigned(answers.context_window.as_str(), u64::MAX) {
        Some(n) => n,
        None => {
            return Err(owned("context_window 必须是非负整数"));
        },
    };
    match scheme {
        Err(error) => {
            return Err(owned("base_url 无效: ").concat(error.as_str()));
        },
        Ok(scheme) => {
            if !same(scheme.as_str(), "http") && !same(scheme.as_str(), "https") {
                return Err(owned("base_url 只支持 http 或 https"));
            }
        },
    }
    if blank(answers.provider.as_str()) || blank(answers.name.as_str()) || blank(
        answers.api_key_env.as_str(),
    ) {
        return Err(owned("provider、model name 与 API key 环境变量名不能为空"));
    }
    if breaks_name(answers.api_key_env.as_str()) {
        return Err(owned("API key 环境变量名不能包含空白或 `=`"));
    }
    if output == 0 || window == 0 || output as u64 > window {
        return Err(
            owned("token 上限必须大于 0，且 max_output_tokens 不能超过 context_window"),
        );
    }
    Ok((output, window))
}

/// The first configuration, or what is wrong with the answers.
pub fn render_initial_config(answers: &InitialAnswers) -> (r: Result<String, String>)
    ensures
        match answers_fault(*answers, url_scheme_of(answers.base_url@)) {
            Some(fault) => r matches Err(error) && error@ == fault,
            None => r matches Ok(text) && text@ == initial_config(*answers),
        },
{
    let scheme = url_scheme(answers.base_url.as_str());
    let (output, window) = match check_answers(answers, &scheme) {
        Ok(limits) => limits,
        Err(error) => {
            return Err(error);
        },
    };
    let provider = toml_text(answers.provider.as_str());
    let name = toml_text(answers.name.as_str());
    let base_url = toml_text(answers.base_url.as_str());
    let api_key_env = toml_text(answers.api_key_env.as_str());
    let most = decimal(output as u128);
    let room = decimal(window as u128);
    Ok(
        owned("[model.primary]\nprovider = ").concat(provider.as_str()).concat(
            "\nname = ",
        ).concat(name.as_str()).concat("\nbase_url = ").concat(base_url.as_str()).concat(
            "\nmax_output_tokens = ",
        ).concat(most.as_str()).concat("\ncontext_window = ").concat(room.as_str()).concat(
            "\napi_key_env = ",
        ).concat(api_key_env.as_str()).concat(
            "\n# price_input = 0.0       # 每百万输入 token 美元（可选）\n# price_output = 0.0      # 每百万输出 token 美元\n",
        ),
    )
}

/// A point in time: the seconds since 1970, and the nanoseconds of the second.
#[derive(Debug, Clone, Copy, PartialEq, Eq, Structural)]
pub struct Moment {
    pub seconds: i64,
    pub nanos: u32,
}

/// Whether a point in time comes before another.
pub open spec fn is_before(a: Moment, b: Moment) -> bool {
    a.seconds < b.seconds || (a.seconds == b.seconds && a.nanos < b.nanos)
}

/// The seconds of a day.
pub const DAY_SECONDS: u64 = 86_400;

/// The point in time that lies a number of days back; an error where there is none.
pub open spec fn cutoff_of(now: Moment, days: int) -> Result<Moment, Seq<char>> {
    let back = days * DAY_SECONDS;
    if back > u64::MAX {
        Err("天数过大"@)
    } else if now.seconds - back < i64::MIN {
        Err("天数超出系统时间范围"@)
    } else {
        Ok(Moment { seconds: (now.seconds - back) as i64, nanos: now.nanos })
    }
}

/// The point in time that lies a number of days back; an error where there is none.
pub fn retention_cutoff(now: Moment, older_than_days: u64) -> (r: Result<Moment, String>)
    ensures
        match r {
            Ok(moment) => cutoff_of(now, older_than_days as int) == Ok::<Moment, Seq<char>>(moment),
            Err(error) => cutoff_of(now, older_than_days as int) == Err::<Moment, Seq<char>>(error@),
        },
{
    if older_than_days > u64::MAX / DAY_SECONDS {
        return Err(owned("天数过大"));
    }
    let back: u64 = older_than_days * DAY_SECONDS;
    let seconds: i128 = now.seconds as i128 - back as i128;
    if seconds < i64::MIN as i128 {
        return Err(owned("天数超出系统时间范围"));
    }
    Ok(Moment { seconds: seconds as i64, nanos: now.nanos })
}

/// The session whose lock a file of this name is.
pub open spec fn lock_of(name: Seq<char>) -> Option<Seq<char>> {
    let stem = name.subrange(0, name.len() - ".jsonl.lock"@.len());
    if has_suffix(name, ".jsonl.lock"@) && uuid_parse(stem) is Some {
        Some(stem)
    } else {
        None
    }
}

/// The session whose lock a file of this name is.
pub fn lock_owner(name: &str) -> (r: Option<String>)
    ensures
        crate::text::opt_view(r) == lock_of(name@),
{
    proof {
        reveal_strlit(".jsonl.lock");
    }
    if !ends_with(name, ".jsonl.lock") {
        return None;
    }
    let chars = to_chars(name);
    let end: usize = chars.len() - 11;
    let stem = slice(&chars, 0, end);
    match uuid_from_text(stem.as_str()) {
        Some(_) => Some(stem),
        None => None,
    }
}

/// Where the last full stop of a name is; -1 where there is none.
pub open spec fn last_stop(name: Seq<char>) -> int
    decreases name.len(),
{
    if name.len() == 0 {
        -1
    } else if name.last() == '.' {
        name.len() - 1
    } else {
        last_stop(name.drop_last())
    }
}

/// A file name without its extension: what comes before the last full stop, unless that is
/// nothing.
pub open spec fn stem_of(name: Seq<char>) -> Seq<char> {
    if last_stop(name) > 0 && name != ".."@ {
        name.take(last_stop(name))
    } else {
        name
    }
}

proof fn lemma_last_stop(name: Seq<char>)
    ensures
        -1 <= last_stop(name) < name.len(),
    decreases name.len(),
{
    if name.len() > 0 {
        lemma_last_stop(name.drop_last());
    }
}

/// A file name without its extension.
pub fn file_stem(name: &str) -> (r: String)
    ensures
        r@ == stem_of(name@),
{
    let chars = to_chars(name);
    let mut k: usize = chars.len();
    assert(chars@.take(k as int) =~= name@);
    while k > 0 && chars[k - 1] != '.'
        invariant
            k <= chars@.len(),
            chars@ == name@,
            last_stop(chars@.take(k as int)) == last_stop(name@),
        decreases k,
    {
        assert(chars@.take(k as int).drop_last() =~= chars@.take(k - 1));
        k -= 1;
    }
    if k <= 1 || same(name, "..") {
        return owned(name);
    }
    assert(chars@.subrange(0, k - 1) =~= name@.take(k - 1));
    slice(&chars, 0, k - 1)
}

/// A file that may be old.
#[derive(Debug, Clone, PartialEq, Eq)]
pub struct OldFile {
    pub name: String,
    /// The parts of its path.
    pub components: Vec<String>,
    pub modified: Moment,
}

/// Whether a file is left alone, however old it is: it is a lock, or it belongs to a session
/// that is in use, by its own name or by that of a directory it lies in.
pub open spec fn is_protected(
    name: Seq<char>,
    components: Seq<Seq<char>>,
    active: Seq<Seq<char>>,
) -> bool {
    ||| has_suffix(name, ".jsonl.lock"@)
    ||| exists|i: int| 0 <= i < components.len() && active.contains(#[trigger] components[i])
    ||| active.contains(stem_of(name))
}

/// Whether a file is taken away: it is older than that, it is no lock, and it belongs to no
/// session that is in use.
pub open spec fn is_pruned(file: OldFile, active: Seq<Seq<char>>, cutoff: Moment) -> bool {
    !is_protected(file.name@, views(file.components@), active) && is_before(file.modified, cutoff)
}

fn listed(list: &Vec<String>, text: &str) -> (r: bool)
    ensures
        r == views(list@).contains(text@),
{
    let mut i: usize = 0;
    while i < list.len()
        invariant
            i <= list@.len(),
            forall|j: int| 0 <= j < i ==> (#[trigger] list@[j])@ != text@,
        decreases list@.len() - i,
    {
        if same(list[i].as_str(), text) {
            assert(views(list@)[i as int] == text@);
            return true;
        }
        i += 1;
    }
    assert forall|j: int| 0 <= j < views(list@).len() implies views(list@)[j] != text@ by {
        assert(views(list@)[j] == list@[j]@);
    }
    false
}

/// Whether a file is left alone, however old it is.
pub fn is_left_alone(name: &str, components: &Vec<String>, active: &Vec<String>) -> (r: bool)
    ensures
        r == is_protected(name@, views(components@), views(active@)),
{
    if ends_with(name, ".jsonl.lock") {
        return true;
    }
    let ghost parts = views(components@);
    let mut i: usize = 0;
    while i < components.len()
        invariant
            i <= components@.len(),
            parts == views(components@),
            forall|j: int| 0 <= j < i ==> !views(active@).contains(#[trigger] parts[j]),
        decreases components@.len() - i,
    {
        assert(parts[i as int] == components@[i as int]@);
        if listed(active, components[i].as_str()) {
            return true;
        }
        i += 1;
    }
    let stem = file_stem(name);
    listed(active, stem.as_str())
}

/// Whether a file is taken away.
pub fn should_prune(file: &OldFile, active: &Vec<String>, cutoff: Moment) -> (r: bool)
    ensures
        r == is_pruned(*file, views(active@), cutoff),
{
    if is_left_alone(file.name.as_str(), &file.components, active) {
        return false;
    }
    file.modified.seconds < cutoff.seconds || (file.modified.seconds == cutoff.seconds
        && file.modified.nanos < cutoff.nanos)
}

/// Nothing of a session that is in use is taken away, no lock is, and nothing that is new
/// enough.
pub proof fn what_is_in_use_is_kept(file: OldFile, active: Seq<Seq<char>>, cutoff: Moment)
    requires
        is_protected(file.name@, views(file.components@), active) || lock_of(file.name@) is Some
            || !is_before(file.modified, cutoff),
    ensures
        !is_pruned(file, active, cutoff),
{
}

/// What is said when old files were taken away, or would be.
pub open spec fn said_of_pruning(removed: nat, days: nat, dry_run: bool) -> Seq<char> {
    if dry_run {
        "将删除 "@ + decimal_of(removed) + " 个文件（早于 "@ + decimal_of(days) + " 天）"@
    } else {
        "已删除 "@ + decimal_of(removed) + " 个过期文件（早于 "@ + decimal_of(days) + " 天）"@
    }
}

/// What is said when old files were taken away, or would be.
pub fn prune_notice(removed: usize, older_than_days: u64, dry_run: bool) -> (r: String)
    ensures
        r@ == said_of_pruning(removed as nat, older_than_days as nat, dry_run),
{
    let count = decimal(removed as u128);
    let days = decimal(older_than_days as u128);
    if dry_run {
        owned("将删除 ").concat(count.as_str()).concat(" 个文件（早于 ").concat(
            days.as_str(),
        ).concat(" 天）")
    } else {
        owned("已删除 ").concat(count.as_str()).concat(" 个过期文件（早于 ").concat(
            days.as_str(),
        ).concat(" 天）")
    }
}

/// The most entries of directories that are looked at.
pub const MAX_WALK_ENTRIES: usize = 100_000;

/// What an entry of a directory is.
#[derive(Debug, Clone, Copy, PartialEq, Eq, Structural)]
pub struct EntryKind {
    /// It leads elsewhere.
    pub leads_elsewhere: bool,
    pub is_dir: bool,
    pub is_file: bool,
    pub is_symlink: bool,
}

/// What is done with an entry of a directory.
#[derive(Debug, Clone, Copy, PartialEq, Eq, Structural)]
pub enum EntryUse {
    /// It is a file.
    Collect,
    /// It is a directory, to be looked into.
    Enter,
    /// It is left alone.
    Skip,
}

/// What is done with an entry: what leads elsewhere is never looked into.
pub open spec fn use_of(kind: EntryKind) -> EntryUse {
    if kind.leads_elsewhere {
        if kind.is_dir {
            EntryUse::Skip
        } else {
            EntryUse::Collect
        }
    } else if kind.is_dir {
        EntryUse::Enter
    } else if kind.is_file || kind.is_symlink {
        EntryUse::Collect
    } else {
        EntryUse::Skip
    }
}

/// A walk through directories.
#[derive(Debug, Clone, Copy, PartialEq, Eq, Structural)]
pub struct Walk {
    /// The entries seen so far.
    pub visited: usize,
}

impl Walk {
    /// A walk that has seen nothing.
    pub fn new() -> (r: Self)
        ensures
            r == (Walk { visited: 0 }),
    {
        Walk { visited: 0 }
    }

    /// The walk after one more entry.
    pub open spec fn after_one(self) -> Walk {
        Walk {
            visited: if self.visited < usize::MAX {
                (self.visited + 1) as usize
            } else {
                usize::MAX
            },
        }
    }

    /// Whether a walk has seen more entries than it may.
    pub open spec fn has_gone_too_far(self) -> bool {
        self.visited > MAX_WALK_ENTRIES
    }

    /// Counts an entry; an error where there are too many.
    pub fn visit(&mut self) -> (r: Result<(), String>)
        ensures
            *final(self) == old(self).after_one(),
            match r {
                Ok(_) => !final(self).has_gone_too_far(),
                Err(error) => final(self).has_gone_too_far() && error@
                    == "清理扫描超过 100000 个目录项，已停止"@,
            },
    {
        if self.visited < usize::MAX {
            self.visited += 1;
        }
        if self.visited > MAX_WALK_ENTRIES {
            Err(owned("清理扫描超过 100000 个目录项，已停止"))
        } else {
            Ok(())
        }
    }
}

/// What is done with an entry of a directory.
pub fn entry_use(kind: EntryKind) -> (r: EntryUse)
    ensures
        r == use_of(kind),
{
    if kind.leads_elsewhere {
        if kind.is_dir {
            EntryUse::Skip
        } else {
            EntryUse::Collect
        }
    } else if kind.is_dir {
        EntryUse::Enter
    } else if kind.is_file || kind.is_symlink {
        EntryUse::Collect
    } else {
        EntryUse::Skip
    }
}

/// A walk never goes where a directory only leads to.
pub proof fn walks_stay_inside(kind: EntryKind)
    requires
        kind.leads_elsewhere,
    ensures
        use_of(kind) != EntryUse::Enter,
{
}

/// What is said of a damaged session.
pub fn damage_notice(session: &str, lines: usize) -> (r: String)
    ensures
        r@ == "会话 "@ + session@ + " 损坏（"@ + decimal_of(lines as nat) + " 行）:"@,
{
    let count = decimal(lines as u128);
    owned("会话 ").concat(session).concat(" 损坏（").concat(count.as_str()).concat(" 行）:")
}

/// What is said of a session that was mended.
pub fn repair_notice(removed: usize, max_seq: u64, synthesized: usize) -> (r: String)
    ensures
        r@ == "  已修复：隔离 "@ + decimal_of(removed as nat) + " 行，重建 seq="@ + decimal_of(
            max_seq as nat,
        ) + "，合成 Interrupted="@ + decimal_of(synthesized as nat) + "\n"@,
{
    let lines = decimal(removed as u128);
    let seq = decimal(max_seq as u128);
    let made = decimal(synthesized as u128);
    owned("  已修复：隔离 ").concat(lines.as_str()).concat(" 行，重建 seq=").concat(
        seq.as_str(),
    ).concat("，合成 Interrupted=").concat(made.as_str()).concat("\n")
}

/// What is said before the list of sessions.
pub fn session_list_head(count: usize) -> (r: String)
    ensures
        r@ == if count == 0 {
            "当前 workspace 没有历史会话（首次提交消息后创建）"@
        } else {
            decimal_of(count as nat)
                + " 个会话（按最近使用排序；--resume 可接完整 id 或唯一前缀）："@
        },
{
    if count == 0 {
        owned("当前 workspace 没有历史会话（首次提交消息后创建）")
    } else {
        let shown = decimal(count as u128);
        shown.concat(" 个会话（按最近使用排序；--resume 可接完整 id 或唯一前缀）：")
    }
}

/// A session in the list: its place, when it changed, how many events it holds, its title
/// and its name.
pub fn session_list_line(place: usize, seconds: i64, events: usize, title: &str, id: SessionId) -> (r:
    String)
    ensures
        r@ == decimal_of(place as nat) + "  "@ + long_text(date_of(seconds as int)) + "  "@
            + decimal_of(events as nat) + " 事件  "@ + (if title@.len() == 0 {
            "(无标题)"@
        } else {
            title@
        }) + "\n      id: "@ + hyphenated(id.0),
{
    let number = decimal(place as u128);
    let date = fmt_session_datetime(seconds);
    let count = decimal(events as u128);
    let shown = if title.is_empty() {
        "(无标题)"
    } else {
        title
    };
    let name = id.to_text();
    number.concat("  ").concat(date.as_str()).concat("  ").concat(count.as_str()).concat(
        " 事件  ",
    ).concat(shown).concat("\n      id: ").concat(name.as_str())
}

/// What is said of a credential: whether there is one.
pub open spec fn said_of_credential(provider: Seq<char>, present: bool) -> Result<
    Seq<char>,
    Seq<char>,
> {
    if present {
        Ok("凭据已配置: "@ + provider)
    } else {
        Err(
            "未配置凭据: "@ + provider + "（用 `tpi auth set "@ + provider + "` 保存）"@,
        )
    }
}

/// What is said of a credential: whether there is one.
pub fn credential_status(provider: &str, present: bool) -> (r: Result<String, String>)
    ensures
        match r {
            Ok(text) => said_of_credential(provider@, present) == Ok::<Seq<char>, Seq<char>>(text@),
            Err(text) => said_of_credential(provider@, present) == Err::<Seq<char>, Seq<char>>(
                text@,
            ),
        },
{
    if present {
        Ok(owned("凭据已配置: ").concat(provider))
    } else {
        Err(
            owned("未配置凭据: ").concat(provider).concat("（用 `tpi auth set ").concat(
                provider,
            ).concat("` 保存）"),
        )
    }
}

} // verus!
