//! What looking after the program is for: that faults are found and told, that what is in use
//! is kept, and that what is written at the start is what was answered.

use crate::doctor::CheckView;
use crate::doctor::DamagedLine;
use crate::doctor::Directory;
use crate::doctor::DoctorFacts;
use crate::doctor::KeyBindings;
use crate::doctor::Probe;
use crate::doctor::ProbeAction;
use crate::doctor::all_bound;
use crate::doctor::bash_check;
use crate::doctor::bindings_text;
use crate::doctor::check_lines;
use crate::doctor::config_check;
use crate::doctor::console_check;
use crate::doctor::directory_check;
use crate::doctor::integrity_check;
use crate::doctor::key_check;
use crate::doctor::keymap_check;
use crate::doctor::model_check;
use crate::doctor::report_of;
use crate::doctor::takes_a_name;
use crate::doctor::workspace_check;
use crate::ids::uuid_parse;
use crate::maintenance::EntryKind;
use crate::maintenance::EntryUse;
use crate::maintenance::InitialAnswers;
use crate::maintenance::Moment;
use crate::maintenance::OldFile;
use crate::maintenance::Walk;
use crate::maintenance::answer_of;
use crate::maintenance::answers_fault;
use crate::maintenance::breaks_a_name;
use crate::maintenance::cutoff_of;
use crate::maintenance::initial_config;
use crate::maintenance::is_before;
use crate::maintenance::is_pruned;
use crate::maintenance::last_stop;
use crate::maintenance::lock_of;
use crate::maintenance::said_of_credential;
use crate::maintenance::said_of_pruning;
use crate::maintenance::says_yes;
use crate::maintenance::stem_of;
use crate::maintenance::token_in;
use crate::maintenance::toml_text_of;
use crate::maintenance::use_of;
use crate::maintenance::without_line_end;
use crate::text::decimal_of;
use crate::text::has_prefix;
use crate::text::has_suffix;
use crate::text::has_text;
use crate::text::is_white_space;
use crate::text::trim_of;
use crate::text::unsigned_value;
use crate::text::views;
use crate::text_laws::a_part_occurs;
use crate::text_laws::parts_of_parts_occur;
use vstd::prelude::*;
use vstd::string::*;

verus! {

/// A configuration is there where one of its two files is, and the nearer one is told.
pub proof fn when_a_configuration_is_there(facts: DoctorFacts)
    ensures
        config_check(facts).ok == (facts.home_config_exists || facts.workspace_config_exists),
        facts.workspace_config_exists ==> has_prefix(
            config_check(facts).detail,
            facts.workspace_config@,
        ),
        !facts.workspace_config_exists && facts.home_config_exists ==> has_prefix(
            config_check(facts).detail,
            facts.home_config@,
        ),
{
    let detail = config_check(facts).detail;
    if facts.workspace_config_exists {
        let path = facts.workspace_config@;
        assert(detail.subrange(0, path.len() as int) =~= path);
    } else {
        let path = facts.home_config@;
        assert(detail.subrange(0, path.len() as int) =~= path);
    }
}

/// A model and a key are found in a configuration that could be loaded: a model by its name,
/// and a key in the environment, in the configuration or in the store.
pub proof fn when_a_model_can_be_used(facts: DoctorFacts)
    ensures
        facts.loaded is Err ==> !model_check(facts).ok && !key_check(facts).ok && model_check(
            facts,
        ).detail == facts.loaded->Err_0@,
        facts.loaded is Ok ==> model_check(facts).ok == (facts.loaded->Ok_0.model.name@.len() > 0),
        facts.loaded is Ok && facts.env_key is Some && facts.env_key->0@.len() > 0 ==> key_check(
            facts,
        ).ok,
        facts.loaded is Ok && facts.stored_key is Some ==> key_check(facts).ok,
        facts.loaded is Ok && facts.loaded->Ok_0.model.api_key is Some ==> key_check(facts).ok,
        facts.loaded is Ok && (facts.env_key is None || facts.env_key->0@.len() == 0)
            && facts.stored_key is None && facts.loaded->Ok_0.model.api_key is None ==> !key_check(
            facts,
        ).ok,
{
}

/// A shell is found where there is one, and told with its place; a directory is in order where
/// it can be written to; a console where it speaks UTF-8.
pub proof fn when_the_rest_is_in_order(facts: DoctorFacts, name: Seq<char>, dir: Directory, page: u32)
    ensures
        bash_check(facts).ok == (facts.bash is Some),
        facts.bash is Some ==> has_prefix(bash_check(facts).detail, facts.bash->0@),
        directory_check(name, dir).ok == dir.writable,
        directory_check(name, dir).name == name,
        has_prefix(directory_check(name, dir).detail, dir.path@),
        console_check(page).ok == (page == 65001),
{
    if facts.bash is Some {
        let path = facts.bash->0@;
        assert(bash_check(facts).detail.subrange(0, path.len() as int) =~= path);
    }
    let detail = directory_check(name, dir).detail;
    assert(detail.subrange(0, dir.path@.len() as int) =~= dir.path@);
}

/// Sessions are in order where no line is damaged; otherwise it is told how many are, and five
/// of them at the most with their place and reason.
pub proof fn damaged_lines_are_told(damaged: Seq<DamagedLine>, k: int)
    ensures
        integrity_check(damaged).ok == (damaged.len() == 0),
        damaged.len() > 0 ==> has_prefix(
            integrity_check(damaged).detail,
            decimal_of(damaged.len()),
        ),
        0 <= k < damaged.len() && k < 5 ==> has_text(
            integrity_check(damaged).detail,
            damaged[k].session@ + " L"@ + decimal_of(damaged[k].line as nat) + ": "@
                + damaged[k].reason@,
        ),
{
    let detail = integrity_check(damaged).detail;
    let count = decimal_of(damaged.len());
    let head = count + " 个坏行（`tpi sessions repair` 修复）:"@;
    let none = Seq::<char>::empty();
    if damaged.len() > 0 {
        assert(detail.subrange(0, count.len() as int) =~= count);
    }
    if 0 <= k < damaged.len() && k < 5 {
        let sought = damaged[k].session@ + " L"@ + decimal_of(damaged[k].line as nat) + ": "@
            + damaged[k].reason@;
        if damaged.len() <= 5 {
            lemma_damaged(damaged, k);
            let lines = crate::doctor::damaged_lines(damaged);
            parts_of_parts_occur(head, lines, none, sought);
            assert(head + lines + none =~= detail);
        } else {
            let some = damaged.take(5);
            lemma_damaged(some, k);
            let lines = crate::doctor::damaged_lines(some);
            let tail = "\n  …等 "@ + count + " 条"@;
            parts_of_parts_occur(head, lines, tail, sought);
            assert(head + lines + tail =~= detail);
        }
    }
}

proof fn lemma_damaged(lines: Seq<DamagedLine>, k: int)
    requires
        0 <= k < lines.len(),
    ensures
        has_text(
            crate::doctor::damaged_lines(lines),
            lines[k].session@ + " L"@ + decimal_of(lines[k].line as nat) + ": "@
                + lines[k].reason@,
        ),
    decreases lines.len(),
{
    let front = crate::doctor::damaged_lines(lines.drop_last());
    let last = lines.last();
    let line = last.session@ + " L"@ + decimal_of(last.line as nat) + ": "@ + last.reason@;
    let none = Seq::<char>::empty();
    assert(crate::doctor::damaged_lines(lines) =~= front + "\n  "@ + line);
    if k == lines.len() - 1 {
        a_part_occurs(front + "\n  "@, line, none);
        assert(front + "\n  "@ + line + none =~= front + "\n  "@ + line);
    } else {
        lemma_damaged(lines.drop_last(), k);
        let sought = lines[k].session@ + " L"@ + decimal_of(lines[k].line as nat) + ": "@
            + lines[k].reason@;
        parts_of_parts_occur(none, front, "\n  "@ + line, sought);
        assert(none + front + ("\n  "@ + line) =~= front + "\n  "@ + line);
    }
}

/// Keys are in order where sending, a new line and Escape are bound.
pub proof fn when_keys_are_in_order(keys: KeyBindings)
    ensures
        all_bound(keys) == (keys.submit.bound && keys.insert_newline.bound && keys.escape.bound),
{
}

/// Every check has a line, in its order, with a mark by which it shows whether it holds.
pub proof fn every_check_has_a_line(checks: Seq<CheckView>, check: CheckView)
    ensures
        check_lines(checks.push(check)) == check_lines(checks) + (if check.ok {
            "✓"@
        } else {
            "✗"@
        }) + " "@ + check.name + "："@ + check.detail + "\n"@,
        check_lines(Seq::<CheckView>::empty()).len() == 0,
{
    assert(checks.push(check).drop_last() =~= checks);
}

/// An answer counts without the space around it, and where it says nothing the default does.
pub proof fn what_an_answer_says(answer: Seq<char>, default: Seq<char>)
    ensures
        trim_of(answer).len() > 0 ==> answer_of(answer, default) == trim_of(answer),
        trim_of(answer).len() == 0 ==> answer_of(answer, default) == default,
        answer_of(Seq::<char>::empty(), default) == default,
        says_yes(answer) ==> trim_of(answer).len() == 1 && (trim_of(answer)[0] == 'y' || trim_of(
            answer,
        )[0] == 'Y'),
        trim_of(answer) == seq!['y'] || trim_of(answer) == seq!['Y'] ==> says_yes(answer),
{
    reveal_strlit("y");
    let text = trim_of(answer);
    let small = text.map_values(|c: char| crate::text::lower_of(c));
    if says_yes(answer) {
        assert(small.len() == 1);
        assert(small[0] == 'y');
    }
    if text == seq!['y'] || text == seq!['Y'] {
        assert(small =~= "y"@);
    }
}

/// A token is what stands on the line, all of it but the line end; and there is none where
/// nothing does.
pub proof fn what_a_token_is(line: Seq<char>)
    ensures
        has_prefix(line, without_line_end(line)),
        without_line_end(line).len() > 0 ==> without_line_end(line).last() != '\n'
            && without_line_end(line).last() != '\r',
        forall|i: int|
            without_line_end(line).len() <= i < line.len() ==> #[trigger] line[i] == '\n' || line[i]
                == '\r',
        (token_in(line) is Ok) == (without_line_end(line).len() > 0),
        token_in(line) is Ok ==> token_in(line)->Ok_0 == without_line_end(line),
    decreases line.len(),
{
    if line.len() > 0 && (line.last() == '\r' || line.last() == '\n') {
        let rest = line.drop_last();
        what_a_token_is(rest);
        let n = without_line_end(line).len() as int;
        assert(line.subrange(0, n) =~= rest.subrange(0, n));
        assert forall|i: int| n <= i < line.len() implies #[trigger] line[i] == '\n' || line[i]
            == '\r' by {
            if i < rest.len() {
                assert(rest[i] == line[i]);
            }
        }
    } else {
        assert(line.subrange(0, line.len() as int) =~= line);
    }
}

/// Answers make a configuration where they name a provider, a model and a variable, an address
/// of the web, and numbers of tokens of which the answer takes no more than the window; and
/// otherwise they do not.
pub proof fn which_answers_will_do(
    answers: InitialAnswers,
    scheme: Result<Seq<char>, Seq<char>>,
)
    ensures
        (answers_fault(answers, scheme) is None) == ({
            let output = unsigned_value(answers.max_output@, u32::MAX as int);
            let window = unsigned_value(answers.context_window@, u64::MAX as int);
            &&& output is Some
            &&& window is Some
            &&& output->0 != 0 && window->0 != 0 && output->0 <= window->0
            &&& scheme is Ok
            &&& scheme->Ok_0 == "http"@ || scheme->Ok_0 == "https"@
            &&& trim_of(answers.provider@).len() > 0
            &&& trim_of(answers.name@).len() > 0
            &&& trim_of(answers.api_key_env@).len() > 0
            &&& forall|i: int|
                0 <= i < answers.api_key_env@.len() ==> (#[trigger] answers.api_key_env@[i]) != '='
                    && !is_white_space(answers.api_key_env@[i])
        }),
{
    let name = answers.api_key_env@;
    if breaks_a_name(name) {
        let i = choose|i: int|
            0 <= i < name.len() && (#[trigger] name[i] == '=' || is_white_space(name[i]));
        assert(name[i] == '=' || is_white_space(name[i]));
    } else {
        assert forall|i: int| 0 <= i < name.len() implies (#[trigger] name[i]) != '='
            && !is_white_space(name[i]) by {
            if name[i] == '=' || is_white_space(name[i]) {
                assert(breaks_a_name(name));
            }
        }
    }
}

/// What is written at the start holds what was answered, each under its own name.
pub proof fn answers_are_written(answers: InitialAnswers)
    ensures
        ({
            let text = initial_config(answers);
            &&& has_prefix(
                text,
                "[model.primary]\nprovider = "@ + toml_text_of(answers.provider@) + "\nname = "@
                    + toml_text_of(answers.name@) + "\nbase_url = "@ + toml_text_of(
                    answers.base_url@,
                ) + "\nmax_output_tokens = "@,
            )
            &&& has_text(text, "\napi_key_env = "@ + toml_text_of(answers.api_key_env@))
        }),
{
    let text = initial_config(answers);
    let front = "[model.primary]\nprovider = "@ + toml_text_of(answers.provider@) + "\nname = "@
        + toml_text_of(answers.name@) + "\nbase_url = "@ + toml_text_of(answers.base_url@)
        + "\nmax_output_tokens = "@;
    let output = decimal_of(unsigned_value(answers.max_output@, u32::MAX as int)->0 as nat);
    let window = decimal_of(unsigned_value(answers.context_window@, u64::MAX as int)->0 as nat);
    let env = "\napi_key_env = "@ + toml_text_of(answers.api_key_env@);
    let tail = "\n# price_input = 0.0       # 每百万输入 token 美元（可选）\n# price_output = 0.0      # 每百万输出 token 美元\n"@;
    let middle = front + output + "\ncontext_window = "@ + window;
    assert(text == middle + "\napi_key_env = "@ + toml_text_of(answers.api_key_env@) + tail);
    assert(text =~= middle + env + tail);
    a_part_occurs(middle, env, tail);
    assert(text =~= front + (output + "\ncontext_window = "@ + window + env + tail));
    assert(text.subrange(0, front.len() as int) =~= front);
}

/// Days lie back by 86400 seconds each; what lies further back than time goes has no moment.
pub proof fn how_far_days_lie_back(now: Moment, days: int)
    requires
        0 <= days,
    ensures
        days == 0 ==> cutoff_of(now, days) == Ok::<Moment, Seq<char>>(now),
        cutoff_of(now, days) matches Ok(moment) ==> moment.seconds == now.seconds - 86400 * days
            && moment.nanos == now.nanos,
        (cutoff_of(now, days) is Ok) == (86400 * days <= u64::MAX && now.seconds - 86400 * days
            >= i64::MIN),
        cutoff_of(now, days) is Ok && days > 0 ==> is_before(cutoff_of(now, days)->Ok_0, now),
{
}

/// Moments are in order by their seconds and then by what is over.
pub proof fn moments_are_in_order(a: Moment, b: Moment, c: Moment)
    ensures
        !is_before(a, a),
        is_before(a, b) ==> !is_before(b, a),
        is_before(a, b) && is_before(b, c) ==> is_before(a, c),
        a.seconds < b.seconds ==> is_before(a, b),
        a.seconds == b.seconds ==> is_before(a, b) == (a.nanos < b.nanos),
{
}

/// A lock belongs to the session that it is named by.
pub proof fn whose_lock_it_is(stem: Seq<char>)
    ensures
        lock_of(stem + ".jsonl.lock"@) == if uuid_parse(stem) is Some {
            Some(stem)
        } else {
            None
        },
{
    let name = stem + ".jsonl.lock"@;
    assert(name.subrange(0, name.len() - ".jsonl.lock"@.len()) =~= stem);
    assert(name.subrange(name.len() - ".jsonl.lock"@.len(), name.len() as int)
        =~= ".jsonl.lock"@);
}

proof fn lemma_last_stop(stem: Seq<char>, ext: Seq<char>)
    requires
        !ext.contains('.'),
    ensures
        last_stop(stem.push('.') + ext) == stem.len(),
    decreases ext.len(),
{
    let name = stem.push('.') + ext;
    if ext.len() == 0 {
        assert(name =~= stem.push('.'));
    } else {
        assert(name.last() == ext.last());
        assert(ext.contains(ext.last())) by {
            assert(ext[ext.len() - 1] == ext.last());
        }
        assert(name.drop_last() =~= stem.push('.') + ext.drop_last());
        if ext.drop_last().contains('.') {
            let i = choose|i: int| 0 <= i < ext.len() - 1 && ext.drop_last()[i] == '.';
            assert(ext[i] == '.');
        }
        lemma_last_stop(stem, ext.drop_last());
    }
}

/// The stem of a name is what stands before its last full stop.
pub proof fn what_a_stem_is(stem: Seq<char>, ext: Seq<char>)
    requires
        stem.len() > 0,
        ext.len() > 0,
        !ext.contains('.'),
    ensures
        stem_of(stem.push('.') + ext) == stem,
{
    let name = stem.push('.') + ext;
    lemma_last_stop(stem, ext);
    reveal_strlit("..");
    assert("..".view().len() == 2);
    if name == ".."@ {
        assert(name.len() == stem.len() + 1 + ext.len());
    }
    assert(name.take(stem.len() as int) =~= stem);
}

/// Only what is old goes, and nothing of a session that is in use: not its own file, nothing in
/// its directory, and no lock.
pub proof fn what_is_taken_away(file: OldFile, active: Seq<Seq<char>>, cutoff: Moment, k: int)
    ensures
        is_pruned(file, active, cutoff) ==> is_before(file.modified, cutoff),
        is_pruned(file, active, cutoff) ==> !active.contains(stem_of(file.name@)),
        is_pruned(file, active, cutoff) ==> !has_suffix(file.name@, ".jsonl.lock"@),
        is_pruned(file, active, cutoff) && 0 <= k < file.components@.len() ==> !active.contains(
            file.components@[k]@,
        ),
        active.len() == 0 && !has_suffix(file.name@, ".jsonl.lock"@) && is_before(
            file.modified,
            cutoff,
        ) ==> is_pruned(file, active, cutoff),
{
    if 0 <= k < file.components@.len() {
        assert(views(file.components@)[k] == file.components@[k]@);
    }
    if active.len() == 0 {
        assert forall|x: Seq<char>| !#[trigger] active.contains(x) by {}
    }
}

/// A walk enters directories that lie where they seem to, and collects files and links.
pub proof fn what_a_walk_enters(kind: EntryKind)
    ensures
        (use_of(kind) == EntryUse::Enter) == (kind.is_dir && !kind.leads_elsewhere),
        !kind.leads_elsewhere && !kind.is_dir && kind.is_file ==> use_of(kind)
            == EntryUse::Collect,
        kind.leads_elsewhere && kind.is_dir ==> use_of(kind) == EntryUse::Skip,
        !kind.leads_elsewhere && !kind.is_dir && !kind.is_file && !kind.is_symlink ==> use_of(kind)
            == EntryUse::Skip,
{
}

/// A walk ends after a hundred thousand entries.
pub proof fn walks_end(walk: Walk)
    ensures
        walk.visited < 100_000 ==> walk.after_one().visited == walk.visited + 1
            && !walk.after_one().has_gone_too_far(),
        walk.visited >= 100_000 ==> walk.after_one().has_gone_too_far(),
{
}

/// It is told how many files went, and that none did where it was only tried.
pub proof fn what_is_told_of_pruning(removed: nat, days: nat, dry_run: bool)
    ensures
        dry_run ==> has_prefix(
            said_of_pruning(removed, days, dry_run),
            "将删除 "@ + decimal_of(removed),
        ),
        !dry_run ==> has_prefix(
            said_of_pruning(removed, days, dry_run),
            "已删除 "@ + decimal_of(removed),
        ),
        has_suffix(said_of_pruning(removed, days, dry_run), decimal_of(days) + " 天）"@),
{
    let text = said_of_pruning(removed, days, dry_run);
    let n = text.len() as int;
    let head = (if dry_run {
        "将删除 "@
    } else {
        "已删除 "@
    }) + decimal_of(removed);
    let tail = decimal_of(days) + " 天）"@;
    assert(text.subrange(0, head.len() as int) =~= head);
    assert(text.subrange(n - tail.len(), n) =~= tail);
}

/// A credential that is missing is an error that says how to set it.
pub proof fn a_missing_credential_is_an_error(provider: Seq<char>, present: bool)
    ensures
        (said_of_credential(provider, present) is Ok) == present,
        present ==> has_suffix(said_of_credential(provider, present)->Ok_0, provider),
        !present ==> has_text(
            said_of_credential(provider, present)->Err_0,
            "tpi auth set "@ + provider,
        ),
{
    if present {
        let text = said_of_credential(provider, present)->Ok_0;
        let n = text.len() as int;
        assert(text.subrange(n - provider.len(), n) =~= provider);
    } else {
        let text = said_of_credential(provider, present)->Err_0;
        reveal_strlit("（用 `tpi auth set ");
        reveal_strlit("（用 `");
        reveal_strlit("tpi auth set ");
        assert("（用 `tpi auth set "@ =~= "（用 `"@ + "tpi auth set "@);
        let head = "未配置凭据: "@ + provider + "（用 `"@;
        let part = "tpi auth set "@ + provider;
        a_part_occurs(head, part, "` 保存）"@);
        assert(text =~= head + part + "` 保存）"@);
    }
}

/// A probe takes four names at the most, each of its own kind, and then gives up.
pub proof fn probes_come_to_an_end(before: Probe, after: Probe, action: ProbeAction)
    requires
        takes_a_name(before, after, action),
    ensures
        before.tried < 4 ==> after.tried == before.tried + 1 && action is Make,
        before.tried >= 4 ==> after == before && action is NotWritable,
        action matches ProbeAction::Make(name) ==> has_prefix(name@, ".tpi-write-probe-"@),
{
    if let ProbeAction::Make(name) = action {
        let value = choose|value: u128|
            #[trigger] crate::ids::is_v7(value) && name@ == ".tpi-write-probe-"@
                + crate::ids::hyphenated(value);
        let n = ".tpi-write-probe-"@.len() as int;
        assert(name@.subrange(0, n) =~= ".tpi-write-probe-"@);
    }
}

/// A report tells everything that was looked at, in its order.
pub proof fn a_report_tells_everything(facts: DoctorFacts)
    ensures
        ({
            let report = report_of(facts);
            let n = report.len() as int;
            &&& report[0] == config_check(facts)
            &&& report[1] == model_check(facts)
            &&& report[2] == key_check(facts)
            &&& report[3] == bash_check(facts)
            &&& report[4] == directory_check("sessions"@, facts.sessions)
            &&& report[5] == directory_check("artifacts"@, facts.artifacts)
            &&& report[6] == directory_check("logs"@, facts.logs)
            &&& facts.code_page is Some ==> n == 11 && report[7] == console_check(
                facts.code_page->0,
            )
            &&& facts.code_page is None ==> n == 10
            &&& report[n - 3].ok == facts.workspace_writable
            &&& report[n - 2].ok == all_bound(facts.keys)
            &&& report[n - 1] == integrity_check(facts.damaged@)
        }),
{
}

/// What was looked at is said as it was found.
pub proof fn what_checks_say(keys: KeyBindings)
    ensures
        workspace_check(true).detail == "workspace 可写"@,
        workspace_check(false).detail == "workspace 不可写（检查权限）"@,
        all_bound(keys) ==> keymap_check(keys).detail == bindings_text(keys),
        !all_bound(keys) ==> keymap_check(keys).detail == bindings_text(keys)
            + "（关键动作缺失，已回退默认键）"@,
        has_prefix(bindings_text(keys), "submit: "@ + keys.submit.keys@),
        has_suffix(bindings_text(keys), keys.escape.keys@),
{
    let text = bindings_text(keys);
    let n = text.len() as int;
    let head = "submit: "@ + keys.submit.keys@;
    let tail = keys.escape.keys@;
    assert(text.subrange(0, head.len() as int) =~= head);
    assert(text.subrange(n - tail.len(), n) =~= tail);
}

} // verus!
