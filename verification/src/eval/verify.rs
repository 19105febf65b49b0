//! Whether a task was done: what has to hold of the repository afterwards.
use crate::path::join_path;
use crate::path::path_join;
use crate::process::resolver::first_there;
use crate::text::contains;
use crate::text::debug_string;
use crate::text::debug_text;
use crate::text::has_text;
use crate::text::join;
use crate::text::join_of;
use crate::text::opt_view;
use crate::text::owned;
use crate::text::signed;
use crate::text::signed_of;
use crate::text::views;
use crate::text::views_push;
use vstd::prelude::*;
use vstd::string::*;

verus! {

/// Something that has to hold.
#[derive(Debug, Clone, PartialEq, Eq)]
pub enum VerifyStep {
    /// A command, run at the root of the repository, ends so and says so.
    Bash {
        command: String,
        expect_exit: Option<i32>,
        expect_stdout_contains: Vec<String>,
        expect_stderr_contains: Vec<String>,
    },
    /// There is a file.
    FileExists { path: String },
    /// A file holds a text.
    FileContains { path: String, contains: String },
}

/// A step in words.
pub open spec fn step_text(step: VerifyStep) -> Seq<char> {
    match step {
        VerifyStep::Bash { command, .. } => "bash: "@ + command@,
        VerifyStep::FileExists { path } => "file_exists: "@ + path@,
        VerifyStep::FileContains { path, contains } => "file_contains: "@ + path@,
    }
}

impl VerifyStep {
    /// The step in words.
    pub fn describe(&self) -> (r: String)
        ensures
            r@ == step_text(*self),
    {
        match self {
            VerifyStep::Bash { command, .. } => owned("bash: ").concat(command.as_str()),
            VerifyStep::FileExists { path } => owned("file_exists: ").concat(path.as_str()),
            VerifyStep::FileContains { path, contains } => owned("file_contains: ").concat(
                path.as_str(),
            ),
        }
    }
}

/// Whether something holds.
#[derive(Debug, Clone, PartialEq, Eq)]
pub struct VerifyResult {
    pub step: String,
    pub passed: bool,
    /// Why it does not.
    pub detail: Option<String>,
}

/// What a [`VerifyResult`] says.
pub struct VerifyResultView {
    pub step: Seq<char>,
    pub passed: bool,
    pub detail: Option<Seq<char>>,
}

impl View for VerifyResult {
    type V = VerifyResultView;

    open spec fn view(&self) -> VerifyResultView {
        VerifyResultView { step: self.step@, passed: self.passed, detail: opt_view(self.detail) }
    }
}

/// What was seen when a step was tried.
#[derive(Debug, Clone, PartialEq, Eq)]
pub enum Observation {
    /// The command took too long.
    TimedOut,
    /// The command could not be run, and why.
    NotRun(String),
    /// The command ended: with a code, where it has one, and what it said.
    Ended { code: Option<i32>, stdout: String, stderr: String },
    /// Whether there is a file.
    File(bool),
    /// What a file holds.
    Text(String),
    /// The file could not be read, and why.
    Unreadable(String),
}

/// The texts of a list that are not in what was said, in words.
pub open spec fn lacking(head: Seq<char>, said: Seq<char>, wanted: Seq<Seq<char>>) -> Seq<Seq<char>>
    decreases wanted.len(),
{
    if wanted.len() == 0 {
        Seq::empty()
    } else {
        let before = lacking(head, said, wanted.drop_last());
        if has_text(said, wanted.last()) {
            before
        } else {
            before.push(head + debug_text(wanted.last()))
        }
    }
}

/// What is wrong with how a command ended.
pub open spec fn command_faults(
    code: i32,
    expected: i32,
    stdout: Seq<char>,
    out_wanted: Seq<Seq<char>>,
    stderr: Seq<char>,
    err_wanted: Seq<Seq<char>>,
) -> Seq<Seq<char>> {
    (if code != expected {
        seq!["exit code "@ + signed_of(code as int) + " != "@ + signed_of(expected as int)]
    } else {
        Seq::empty()
    }) + lacking("stdout 缺少: "@, stdout, out_wanted) + lacking(
        "stderr 缺少: "@,
        stderr,
        err_wanted,
    )
}

/// Why a step does not hold; nothing where it does.
pub open spec fn fault_of(step: VerifyStep, seen: Observation) -> Option<Seq<char>> {
    match step {
        VerifyStep::Bash {
            command,
            expect_exit,
            expect_stdout_contains,
            expect_stderr_contains,
        } => match seen {
            Observation::TimedOut => Some("超时（>60s）"@),
            Observation::NotRun(error) => Some(error@),
            Observation::Ended { code: Some(code), stdout, stderr } => {
                let faults = command_faults(
                    code,
                    match expect_exit {
                        Some(expected) => expected,
                        None => 0,
                    },
                    stdout@,
                    views(expect_stdout_contains@),
                    stderr@,
                    views(expect_stderr_contains@),
                );
                if faults.len() == 0 {
                    None
                } else {
                    Some(join_of(faults, "；"@))
                }
            },
            _ => Some("未知错误"@),
        },
        VerifyStep::FileExists { path } => match seen {
            Observation::File(true) => None,
            _ => Some("文件不存在"@),
        },
        VerifyStep::FileContains { path, contains } => match seen {
            Observation::Text(text) => if has_text(text@, contains@) {
                None
            } else {
                Some("文件缺少内容: "@ + debug_text(contains@))
            },
            Observation::Unreadable(error) => Some("读取失败: "@ + error@),
            _ => Some("未知错误"@),
        },
    }
}

fn push_text(list: &mut Vec<String>, text: String)
    ensures
        views(final(list)@) == views(old(list)@).push(text@),
{
    proof {
        views_push(list@, text);
    }
    list.push(text);
}

fn add_lacking(faults: &mut Vec<String>, head: &str, said: &str, wanted: &Vec<String>)
    ensures
        views(final(faults)@) == views(old(faults)@) + lacking(head@, said@, views(wanted@)),
{
    let ghost before = views(faults@);
    let ghost all = views(wanted@);
    let mut i: usize = 0;
    assert(views(faults@) =~= before + lacking(head@, said@, all.take(0)));
    while i < wanted.len()
        invariant
            i <= wanted@.len(),
            all == views(wanted@),
            views(faults@) == before + lacking(head@, said@, all.take(i as int)),
        decreases wanted@.len() - i,
    {
        proof {
            let next = all.take(i + 1);
            assert(next.drop_last() =~= all.take(i as int));
            assert(next.last() == wanted@[i as int]@);
        }
        let ghost held = views(faults@);
        if !contains(said, wanted[i].as_str()) {
            let shown = debug_string(wanted[i].as_str());
            push_text(faults, owned(head).concat(shown.as_str()));
        }
        assert(views(faults@) =~= before + lacking(head@, said@, all.take(i + 1)));
        i += 1;
    }
    assert(all.take(i as int) =~= all);
}

fn fault_in(step: &VerifyStep, seen: &Observation) -> (r: Option<String>)
    ensures
        opt_view(r) == fault_of(*step, *seen),
{
    match step {
        VerifyStep::Bash {
            command,
            expect_exit,
            expect_stdout_contains,
            expect_stderr_contains,
        } => match seen {
            Observation::TimedOut => Some(owned("超时（>60s）")),
            Observation::NotRun(error) => Some(error.clone()),
            Observation::Ended { code: Some(code), stdout, stderr } => {
                let expected: i32 = match expect_exit {
                    Some(expected) => *expected,
                    None => 0,
                };
                let mut faults: Vec<String> = Vec::new();
                assert(views(faults@) =~= Seq::<Seq<char>>::empty());
                if *code != expected {
                    let found = signed(*code as i64);
                    let wanted = signed(expected as i64);
                    push_text(
                        &mut faults,
                        owned("exit code ").concat(found.as_str()).concat(" != ").concat(
                            wanted.as_str(),
                        ),
                    );
                }
                let ghost first = if *code != expected {
                    seq!["exit code "@ + signed_of(*code as int) + " != "@ + signed_of(expected as int)]
                } else {
                    Seq::empty()
                };
                assert(views(faults@) =~= first);
                add_lacking(&mut faults, "stdout 缺少: ", stdout.as_str(), expect_stdout_contains);
                add_lacking(&mut faults, "stderr 缺少: ", stderr.as_str(), expect_stderr_contains);
                assert(views(faults@).len() == faults@.len());
                if faults.len() == 0 {
                    None
                } else {
                    Some(join(&faults, "；"))
                }
            },
            _ => Some(owned("未知错误")),
        },
        VerifyStep::FileExists { path } => match seen {
            Observation::File(true) => None,
            _ => Some(owned("文件不存在")),
        },
        VerifyStep::FileContains { path, contains: wanted } => match seen {
            Observation::Text(text) => if contains(text.as_str(), wanted.as_str()) {
                None
            } else {
                let shown = debug_string(wanted.as_str());
                Some(owned("文件缺少内容: ").concat(shown.as_str()))
            },
            Observation::Unreadable(error) => Some(owned("读取失败: ").concat(error.as_str())),
            _ => Some(owned("未知错误")),
        },
    }
}

/// Whether a step holds, by what was seen, and why not.
pub open spec fn judged(step: VerifyStep, seen: Observation) -> VerifyResultView {
    VerifyResultView {
        step: step_text(step),
        passed: fault_of(step, seen) is None,
        detail: fault_of(step, seen),
    }
}

/// Whether a step holds, by what was seen.
pub fn judge(step: &VerifyStep, seen: &Observation) -> (r: VerifyResult)
    ensures
        r@ == judged(*step, *seen),
{
    let detail = fault_in(step, seen);
    VerifyResult { step: step.describe(), passed: detail.is_none(), detail }
}

/// Whether all steps hold.
pub open spec fn all_passed(results: Seq<VerifyResult>) -> bool {
    forall|i: int| 0 <= i < results.len() ==> (#[trigger] results[i]).passed
}

/// Whether all steps hold.
pub fn verification_passed(results: &Vec<VerifyResult>) -> (r: bool)
    ensures
        r == all_passed(results@),
{
    let mut i: usize = 0;
    while i < results.len()
        invariant
            i <= results@.len(),
            forall|j: int| 0 <= j < i ==> (#[trigger] results@[j]).passed,
        decreases results@.len() - i,
    {
        if !results[i].passed {
            assert(!results@[i as int].passed);
            return false;
        }
        i += 1;
    }
    true
}

/// Where Bash may be, in the order in which it is looked for: where Git puts it, and then in
/// the directories of programs.
pub open spec fn bash_places(dirs: Seq<Seq<char>>) -> Seq<Seq<char>> {
    seq![
        "C:\\Program Files\\Git\\bin\\bash.exe"@,
        "C:\\Program Files\\Git\\usr\\bin\\bash.exe"@,
    ] + dirs.map_values(|dir: Seq<char>| path_join(dir, "bash.exe"@))
}

/// Where Bash may be, in the order in which it is looked for.
pub fn bash_candidates(dirs: &Vec<String>) -> (r: Vec<String>)
    ensures
        views(r@) == bash_places(views(dirs@)),
{
    let mut out: Vec<String> = Vec::new();
    push_text(&mut out, owned("C:\\Program Files\\Git\\bin\\bash.exe"));
    push_text(&mut out, owned("C:\\Program Files\\Git\\usr\\bin\\bash.exe"));
    let ghost places = bash_places(views(dirs@));
    let mut i: usize = 0;
    assert(views(out@) =~= places.take(2));
    while i < dirs.len()
        invariant
            i <= dirs@.len(),
            places == bash_places(views(dirs@)),
            views(out@) == places.take(i + 2),
        decreases dirs@.len() - i,
    {
        push_text(&mut out, join_path(dirs[i].as_str(), "bash.exe"));
        assert(views(dirs@)[i as int] == dirs@[i as int]@);
        assert(views(out@) =~= places.take(i + 3));
        i += 1;
    }
    assert(places.take(i + 2) =~= places);
    out
}

/// The Bash that is used: the first that is there, and the one that the system finds by its
/// name where none is.
pub open spec fn bash_of(candidates: Seq<Seq<char>>, exists: Seq<bool>) -> Seq<char> {
    match first_there(exists, 0) {
        Some(i) => candidates[i],
        None => "bash"@,
    }
}

/// The Bash that is used: the first that is there, and the one that the system finds by its
/// name where none is. `exists` says of each place whether there is something.
pub fn locate_bash(candidates: &Vec<String>, exists: &Vec<bool>) -> (r: String)
    requires
        exists@.len() == candidates@.len(),
    ensures
        r@ == bash_of(views(candidates@), exists@),
{
    let mut i: usize = 0;
    while i < candidates.len()
        invariant
            i <= candidates@.len() == exists@.len(),
            first_there(exists@, 0) == first_there(exists@, i as int),
        decreases candidates@.len() - i,
    {
        if exists[i] {
            return candidates[i].clone();
        }
        i += 1;
    }
    owned("bash")
}

} // verus!
