//! Scheduling of tool calls: what a call touches, which calls may run together, and
//! whether a call repeats itself without progress.
use crate::digest::digest;
use crate::digest::digest_of;
use crate::json::canonical;
use crate::json::canonical_of;
use crate::order::sort;
use crate::order::sorted_texts;
use crate::path::components;
use crate::path::path_components;
use crate::text::decimal;
use crate::text::decimal_of;
use crate::text::join;
use crate::text::join_of;
use crate::text::owned;
use crate::text::same;
use crate::text::same_list;
use crate::text::views;
use crate::text::views_push;
use crate::tool::tool_name;
use crate::tool::BuiltinTool;
use std::collections::HashMap;
use vstd::prelude::*;
use vstd::string::*;

verus! {

/// What a call touches.
#[derive(Debug, PartialEq, Eq)]
pub enum ToolAccess {
    /// Nothing.
    Pure,
    /// The given resources.
    Resources(Vec<ResourceLock>),
    /// Anything in the workspace.
    WorkspaceUnknown,
}

/// A resource and what is done with it.
#[derive(Debug, PartialEq, Eq)]
pub struct ResourceLock {
    pub resource: ResourceId,
    pub mode: AccessMode,
}

/// What is done with a resource.
#[derive(Debug, Clone, Copy, PartialEq, Eq, Structural)]
pub enum AccessMode {
    Read,
    Write,
}

/// A resource.
#[derive(Debug, PartialEq, Eq)]
pub enum ResourceId {
    File(FileScope),
}

/// A file, or a directory with all that is in it.
#[derive(Debug, PartialEq, Eq)]
pub enum FileScope {
    Exact(String),
    Recursive(String),
}

/// The path arguments of a call, and what they resolve to in the workspace.
#[derive(Debug, Clone, PartialEq, Eq)]
pub enum ValidatedArgs {
    /// A path as the model wrote it, and the path that it stands for, if it stands for one.
    Path { path: String, resolved: Option<String> },
    /// Arguments without a path.
    Other,
}

/// Whether two paths are the same: their components are.
pub open spec fn same_path(a: Seq<char>, b: Seq<char>) -> bool {
    path_components(a) == path_components(b)
}

/// Whether `path` lies in `base` or is it: its components begin with those of `base`.
pub open spec fn lies_in(path: Seq<char>, base: Seq<char>) -> bool {
    path_components(base).is_prefix_of(path_components(path))
}

fn in_or_at(path: &str, base: &str) -> (r: bool)
    ensures
        r == lies_in(path@, base@),
{
    let all = components(path);
    let front = components(base);
    if front.len() > all.len() {
        return false;
    }
    let mut i: usize = 0;
    while i < front.len()
        invariant
            i <= front@.len() <= all@.len(),
            views(all@) == path_components(path@),
            views(front@) == path_components(base@),
            forall|j: int| 0 <= j < i ==> front@[j]@ == all@[j]@,
        decreases front@.len() - i,
    {
        if !same(front[i].as_str(), all[i].as_str()) {
            proof {
                let f = path_components(base@);
                let a = path_components(path@);
                assert(f[i as int] != a[i as int]);
                assert(a.subrange(0, f.len() as int)[i as int] != f[i as int]);
            }
            return false;
        }
        i += 1;
    }
    proof {
        let f = path_components(base@);
        let a = path_components(path@);
        assert forall|j: int| 0 <= j < f.len() implies f[j] == a[j] by {
            assert(front@[j]@ == all@[j]@);
        }
        assert(f =~= a.subrange(0, f.len() as int));
    }
    true
}

fn equal_paths(a: &str, b: &str) -> (r: bool)
    ensures
        r == same_path(a@, b@),
{
    same_list(&components(a), &components(b))
}

/// The path of a scope.
pub open spec fn scope_path(scope: FileScope) -> Seq<char> {
    match scope {
        FileScope::Exact(path) => path@,
        FileScope::Recursive(path) => path@,
    }
}

/// Whether all of scope `b` lies in scope `a`.
pub open spec fn covers(a: FileScope, b: FileScope) -> bool {
    same_path(scope_path(a), scope_path(b)) || (a is Recursive && lies_in(
        scope_path(b),
        scope_path(a),
    ))
}

/// Whether two scopes have a file in common: one of them covers the other.
pub open spec fn overlap(a: FileScope, b: FileScope) -> bool {
    covers(a, b) || covers(b, a)
}

/// Whether two locks exclude each other: their scopes overlap and one of them writes.
pub open spec fn conflict(a: ResourceLock, b: ResourceLock) -> bool {
    overlap(a.resource->File_0, b.resource->File_0) && (a.mode == AccessMode::Write || b.mode
        == AccessMode::Write)
}

/// Whether two scopes have a file in common.
pub fn scopes_conflict(a: &FileScope, b: &FileScope) -> (r: bool)
    ensures
        r == overlap(*a, *b),
{
    let a_path = match a {
        FileScope::Exact(path) => path,
        FileScope::Recursive(path) => path,
    };
    let b_path = match b {
        FileScope::Exact(path) => path,
        FileScope::Recursive(path) => path,
    };
    if equal_paths(a_path.as_str(), b_path.as_str()) {
        return true;
    }
    let a_contains_b = match a {
        FileScope::Recursive(_) => in_or_at(b_path.as_str(), a_path.as_str()),
        FileScope::Exact(_) => false,
    };
    let b_contains_a = match b {
        FileScope::Recursive(_) => in_or_at(a_path.as_str(), b_path.as_str()),
        FileScope::Exact(_) => false,
    };
    a_contains_b || b_contains_a
}

/// Whether two locks exclude each other.
pub fn locks_conflict(a: &ResourceLock, b: &ResourceLock) -> (r: bool)
    ensures
        r == conflict(*a, *b),
{
    let same_root = match (&a.resource, &b.resource) {
        (ResourceId::File(scope_a), ResourceId::File(scope_b)) => scopes_conflict(scope_a, scope_b),
    };
    same_root && (a.mode == AccessMode::Write || b.mode == AccessMode::Write)
}

/// It makes no difference which of two scopes, or of two locks, is named first.
pub proof fn conflict_is_symmetric(a: ResourceLock, b: ResourceLock)
    ensures
        overlap(a.resource->File_0, b.resource->File_0) == overlap(
            b.resource->File_0,
            a.resource->File_0,
        ),
        conflict(a, b) == conflict(b, a),
{
}

/// Two readers never exclude each other.
pub proof fn readers_never_conflict(a: ResourceLock, b: ResourceLock)
    requires
        a.mode == AccessMode::Read,
        b.mode == AccessMode::Read,
    ensures
        !conflict(a, b),
{
}

/// A writer excludes every other lock on the same path.
pub proof fn writers_exclude(a: ResourceLock, b: ResourceLock)
    requires
        a.mode == AccessMode::Write,
        scope_path(a.resource->File_0) == scope_path(b.resource->File_0),
    ensures
        conflict(a, b),
{
}

/// The scope and mode of a tool with a path.
pub open spec fn path_tool(tool: BuiltinTool) -> Option<(bool, AccessMode)> {
    match tool {
        BuiltinTool::Read => Some((false, AccessMode::Read)),
        BuiltinTool::List => Some((true, AccessMode::Read)),
        BuiltinTool::Search => Some((true, AccessMode::Read)),
        BuiltinTool::Edit => Some((false, AccessMode::Write)),
        BuiltinTool::Write => Some((false, AccessMode::Write)),
        _ => None,
    }
}

/// The path that a call is about: the resolved one, or the one written where it resolves to none.
pub open spec fn args_path(args: ValidatedArgs) -> Option<Seq<char>> {
    match args {
        ValidatedArgs::Path { path, resolved } => Some(
            match resolved {
                Some(resolved) => resolved@,
                None => path@,
            },
        ),
        ValidatedArgs::Other => None,
    }
}

/// Whether `access` is what a call of `tool` touches.
pub open spec fn is_access(tool: BuiltinTool, args: ValidatedArgs, access: ToolAccess) -> bool {
    match (path_tool(tool), args_path(args)) {
        (Some((recursive, mode)), Some(path)) => {
            &&& access matches ToolAccess::Resources(locks)
            &&& locks@.len() == 1
            &&& locks@[0].mode == mode
            &&& scope_path(locks@[0].resource->File_0) == path
            &&& (locks@[0].resource->File_0 is Recursive) == recursive
        },
        _ => if tool == BuiltinTool::Bash {
            access is WorkspaceUnknown
        } else {
            access is Pure
        },
    }
}

fn file_lock(scope: FileScope, mode: AccessMode) -> (r: ToolAccess)
    ensures
        r matches ToolAccess::Resources(locks) && locks@.len() == 1 && locks@[0].mode == mode
            && locks@[0].resource == ResourceId::File(scope),
{
    let mut locks: Vec<ResourceLock> = Vec::new();
    locks.push(ResourceLock { resource: ResourceId::File(scope), mode });
    ToolAccess::Resources(locks)
}

/// What a call of `tool` touches: a file or directory for the tools with a path, anything
/// for a shell command, and nothing otherwise.
pub fn tool_access(tool: BuiltinTool, args: &ValidatedArgs) -> (r: ToolAccess)
    ensures
        is_access(tool, *args, r),
{
    match args {
        ValidatedArgs::Path { path, resolved } => {
            let target = match resolved {
                Some(resolved) => resolved.clone(),
                None => path.clone(),
            };
            match tool {
                BuiltinTool::Read => file_lock(FileScope::Exact(target), AccessMode::Read),
                BuiltinTool::List => file_lock(FileScope::Recursive(target), AccessMode::Read),
                BuiltinTool::Search => file_lock(FileScope::Recursive(target), AccessMode::Read),
                BuiltinTool::Edit => file_lock(FileScope::Exact(target), AccessMode::Write),
                BuiltinTool::Write => file_lock(FileScope::Exact(target), AccessMode::Write),
                BuiltinTool::Bash => ToolAccess::WorkspaceUnknown,
                _ => ToolAccess::Pure,
            }
        },
        ValidatedArgs::Other => match tool {
            BuiltinTool::Bash => ToolAccess::WorkspaceUnknown,
            _ => ToolAccess::Pure,
        },
    }
}

/// Which tool a prepared call runs.
#[derive(Debug, PartialEq, Eq)]
pub enum PreparedKind {
    Builtin(BuiltinTool),
    External(String),
}

/// A call that has been checked and may run.
#[derive(Debug, PartialEq, Eq)]
pub struct PreparedCall {
    /// Its position among the calls of the model.
    pub source_index: usize,
    pub kind: PreparedKind,
    pub access: ToolAccess,
    /// What it does, for telling repetitions.
    pub action_key: String,
}

/// The locks of an access.
pub open spec fn locks_of(access: ToolAccess) -> Seq<ResourceLock> {
    match access {
        ToolAccess::Resources(locks) => locks@,
        _ => Seq::empty(),
    }
}

/// Whether some lock of `a` excludes some lock of `b`.
pub open spec fn locks_clash(a: Seq<ResourceLock>, b: Seq<ResourceLock>) -> bool {
    exists|i: int, j: int|
        0 <= i < a.len() && 0 <= j < b.len() && conflict(#[trigger] a[i], #[trigger] b[j])
}

/// Whether a call writes to a known resource.
pub open spec fn is_writer(call: PreparedCall) -> bool {
    exists|i: int|
        0 <= i < locks_of(call.access).len() && (#[trigger] locks_of(call.access)[i]).mode
            == AccessMode::Write
}

/// Whether two calls must not run at the same time.
pub open spec fn calls_clash(a: PreparedCall, b: PreparedCall) -> bool {
    ||| a.access is WorkspaceUnknown
    ||| b.access is WorkspaceUnknown
    ||| locks_clash(locks_of(a.access), locks_of(b.access))
}

/// Whether a call may join a wave: there is room, no call of the wave writes or may touch
/// anything, and no lock of the wave excludes one of the call's.
pub open spec fn may_join(wave: Seq<PreparedCall>, call: PreparedCall, max: int) -> bool {
    &&& wave.len() < max
    &&& forall|i: int|
        0 <= i < wave.len() ==> !is_writer(#[trigger] wave[i]) && !calls_clash(call, wave[i])
}

/// The waves with one more call: it joins the last wave where it may and only reads or
/// touches nothing; otherwise it opens a wave of its own.
pub open spec fn placed(waves: Seq<Seq<PreparedCall>>, call: PreparedCall, max: int) -> Seq<
    Seq<PreparedCall>,
> {
    if !(call.access is WorkspaceUnknown) && !is_writer(call) && waves.len() > 0 && may_join(
        waves.last(),
        call,
        max,
    ) {
        waves.update(waves.len() - 1, waves.last().push(call))
    } else {
        waves.push(seq![call])
    }
}

/// The waves of some calls.
pub open spec fn waves_of(calls: Seq<PreparedCall>, max: int) -> Seq<Seq<PreparedCall>>
    decreases calls.len(),
{
    if calls.len() == 0 {
        Seq::empty()
    } else {
        placed(waves_of(calls.drop_last(), max), calls.last(), max)
    }
}

/// The waves as sequences.
pub open spec fn wave_seqs(waves: Seq<Vec<PreparedCall>>) -> Seq<Seq<PreparedCall>> {
    Seq::new(waves.len(), |i: int| waves[i]@)
}

fn any_clash(a: &Vec<ResourceLock>, b: &Vec<ResourceLock>) -> (r: bool)
    ensures
        r == locks_clash(a@, b@),
{
    let mut i: usize = 0;
    while i < a.len()
        invariant
            i <= a@.len(),
            forall|x: int, y: int|
                0 <= x < i && 0 <= y < b@.len() ==> !conflict(#[trigger] a@[x], #[trigger] b@[y]),
        decreases a@.len() - i,
    {
        let mut j: usize = 0;
        while j < b.len()
            invariant
                i < a@.len(),
                j <= b@.len(),
                forall|y: int| 0 <= y < j ==> !conflict(a@[i as int], #[trigger] b@[y]),
            decreases b@.len() - j,
        {
            if locks_conflict(&a[i], &b[j]) {
                assert(conflict(a@[i as int], b@[j as int]));
                return true;
            }
            j += 1;
        }
        i += 1;
    }
    false
}

fn has_write(locks: &Vec<ResourceLock>) -> (r: bool)
    ensures
        r == exists|i: int| 0 <= i < locks@.len() && (#[trigger] locks@[i]).mode
            == AccessMode::Write,
{
    let mut i: usize = 0;
    while i < locks.len()
        invariant
            i <= locks@.len(),
            forall|j: int| 0 <= j < i ==> (#[trigger] locks@[j]).mode != AccessMode::Write,
        decreases locks@.len() - i,
    {
        if locks[i].mode == AccessMode::Write {
            return true;
        }
        i += 1;
    }
    false
}

fn clash(a: &PreparedCall, b: &PreparedCall) -> (r: bool)
    ensures
        r == calls_clash(*a, *b),
{
    match (&a.access, &b.access) {
        (ToolAccess::WorkspaceUnknown, _) => true,
        (_, ToolAccess::WorkspaceUnknown) => true,
        (ToolAccess::Resources(x), ToolAccess::Resources(y)) => any_clash(x, y),
        _ => false,
    }
}

fn joins(wave: &Vec<PreparedCall>, call: &PreparedCall, max: usize) -> (r: bool)
    ensures
        r == may_join(wave@, *call, max as int),
{
    if wave.len() >= max {
        return false;
    }
    let mut i: usize = 0;
    while i < wave.len()
        invariant
            i <= wave@.len(),
            forall|j: int|
                0 <= j < i ==> !is_writer(#[trigger] wave@[j]) && !calls_clash(*call, wave@[j]),
        decreases wave@.len() - i,
    {
        if writes(&wave[i]) || clash(call, &wave[i]) {
            return false;
        }
        i += 1;
    }
    true
}

fn writes(call: &PreparedCall) -> (r: bool)
    ensures
        r == is_writer(*call),
{
    match &call.access {
        ToolAccess::Resources(locks) => has_write(locks),
        _ => false,
    }
}

/// The waves in which calls run: one wave after the other, the calls of a wave together,
/// at most `max_parallel` of them, or one where that is 0.
pub fn build_waves(calls: Vec<PreparedCall>, max_parallel: usize) -> (r: Vec<Vec<PreparedCall>>)
    ensures
        wave_seqs(r@) == waves_of(
            calls@,
            if max_parallel < 1 {
                1
            } else {
                max_parallel as int
            },
        ),
{
    let max: usize = if max_parallel < 1 {
        1
    } else {
        max_parallel
    };
    let ghost all = calls@;
    let mut rest = calls;
    let mut waves: Vec<Vec<PreparedCall>> = Vec::new();
    let ghost mut done: int = 0;
    assert(wave_seqs(waves@) =~= waves_of(all.take(0), max as int));
    assert(all.skip(0) =~= all);
    while rest.len() > 0
        invariant
            0 <= done <= all.len(),
            rest@ == all.skip(done),
            wave_seqs(waves@) == waves_of(all.take(done), max as int),
        decreases rest@.len(),
    {
        let call = rest.remove(0);
        let ghost before = wave_seqs(waves@);
        proof {
            let next = all.take(done + 1);
            assert(next.drop_last() =~= all.take(done));
            assert(next.last() == call);
            assert(rest@ =~= all.skip(done + 1));
            done = done + 1;
        }
        let alone = match &call.access {
            ToolAccess::WorkspaceUnknown => true,
            _ => writes(&call),
        };
        let last: usize = waves.len();
        if !alone && last > 0 && joins(&waves[last - 1], &call, max) {
            let popped = waves.pop();
            if let Some(wave) = popped {
                let mut wave = wave;
                wave.push(call);
                waves.push(wave);
                assert(wave_seqs(waves@) =~= before.update(
                    before.len() - 1,
                    before.last().push(call),
                ));
            }
        } else {
            let mut wave: Vec<PreparedCall> = Vec::new();
            wave.push(call);
            assert(wave@ =~= seq![call]);
            waves.push(wave);
            assert(wave_seqs(waves@) =~= before.push(seq![call]));
        }
    }
    assert(all.take(done) =~= all);
    waves
}

/// All waves one after the other are the calls in their order: none is lost, none runs
/// twice, and none overtakes another.
pub proof fn waves_keep_the_calls(calls: Seq<PreparedCall>, max: int)
    ensures
        waves_of(calls, max).flatten() == calls,
    decreases calls.len(),
{
    if calls.len() > 0 {
        let rest = calls.drop_last();
        let call = calls.last();
        waves_keep_the_calls(rest, max);
        let before = waves_of(rest, max);
        let after = placed(before, call, max);
        if after == before.push(seq![call]) {
            before.lemma_flatten_push(seq![call]);
            assert(after.flatten() =~= rest + seq![call]);
        } else {
            let front = before.drop_last();
            assert(before =~= front.push(before.last()));
            assert(after =~= front.push(before.last().push(call)));
            front.lemma_flatten_push(before.last());
            front.lemma_flatten_push(before.last().push(call));
            assert(front.flatten() + before.last().push(call) =~= (front.flatten()
                + before.last()).push(call));
        }
        assert(calls =~= rest.push(call));
        assert(rest + seq![call] =~= rest.push(call));
    } else {
        assert(waves_of(calls, max).flatten() =~= Seq::<PreparedCall>::empty());
    }
}

/// No wave is empty and none is larger than the limit.
pub proof fn waves_are_bounded(calls: Seq<PreparedCall>, max: int)
    requires
        max >= 1,
    ensures
        forall|w: int|
            0 <= w < waves_of(calls, max).len() ==> 1 <= (#[trigger] waves_of(calls, max)[w]).len()
                <= max,
    decreases calls.len(),
{
    if calls.len() > 0 {
        let before = waves_of(calls.drop_last(), max);
        waves_are_bounded(calls.drop_last(), max);
        let after = waves_of(calls, max);
        assert forall|w: int| 0 <= w < after.len() implies 1 <= (#[trigger] after[w]).len()
            <= max by {
            if w < before.len() {
                assert(1 <= before[w].len() <= max);
            }
        }
    }
}

/// The calls of a wave do not get in each other's way: no two of them clash, and a wave
/// with a call that may touch anything has no other call.
pub proof fn waves_are_free_of_conflict(calls: Seq<PreparedCall>, max: int)
    ensures
        forall|w: int, i: int, j: int|
            0 <= w < waves_of(calls, max).len() && 0 <= i < j < waves_of(calls, max)[w].len()
                ==> !calls_clash(
                #[trigger] waves_of(calls, max)[w][j],
                #[trigger] waves_of(calls, max)[w][i],
            ),
    decreases calls.len(),
{
    if calls.len() > 0 {
        let before = waves_of(calls.drop_last(), max);
        waves_are_free_of_conflict(calls.drop_last(), max);
        let after = waves_of(calls, max);
        assert forall|w: int, i: int, j: int|
            0 <= w < after.len() && 0 <= i < j < after[w].len() implies !calls_clash(
            #[trigger] after[w][j],
            #[trigger] after[w][i],
        ) by {
            if w < before.len() {
                if after[w] == before[w] || j < before[w].len() {
                    assert(after[w][i] == before[w][i]);
                    assert(after[w][j] == before[w][j]);
                    assert(!calls_clash(before[w][j], before[w][i]));
                }
            }
        }
    }
}

/// A call that writes has a wave of its own.
pub proof fn writers_run_alone(calls: Seq<PreparedCall>, max: int)
    ensures
        forall|w: int, i: int|
            0 <= w < waves_of(calls, max).len() && 0 <= i < waves_of(calls, max)[w].len()
                && is_writer(#[trigger] waves_of(calls, max)[w][i]) ==> waves_of(
                calls,
                max,
            )[w].len() == 1,
    decreases calls.len(),
{
    if calls.len() > 0 {
        let before = waves_of(calls.drop_last(), max);
        writers_run_alone(calls.drop_last(), max);
        let after = waves_of(calls, max);
        assert forall|w: int, i: int|
            0 <= w < after.len() && 0 <= i < after[w].len() && is_writer(
                #[trigger] after[w][i],
            ) implies after[w].len() == 1 by {
            if w < before.len() && i < before[w].len() {
                assert(after[w][i] == before[w][i]);
                assert(is_writer(before[w][i]));
                if after[w] != before[w] {
                    assert(!is_writer(before.last()[i]));
                }
            }
        }
    }
}

/// Calls that clash the one way round clash the other way round.
pub proof fn clash_is_symmetric(a: PreparedCall, b: PreparedCall)
    ensures
        calls_clash(a, b) == calls_clash(b, a),
{
    let x = locks_of(a.access);
    let y = locks_of(b.access);
    if locks_clash(x, y) {
        let (i, j) = choose|i: int, j: int|
            0 <= i < x.len() && 0 <= j < y.len() && conflict(#[trigger] x[i], #[trigger] y[j]);
        conflict_is_symmetric(x[i], y[j]);
        assert(conflict(y[j], x[i]));
    }
    if locks_clash(y, x) {
        let (i, j) = choose|i: int, j: int|
            0 <= i < y.len() && 0 <= j < x.len() && conflict(#[trigger] y[i], #[trigger] x[j]);
        conflict_is_symmetric(y[i], x[j]);
        assert(conflict(x[j], y[i]));
    }
}

/// What a call does: a digest of the tool's name and the arguments in canonical form.
pub open spec fn action_of(name: Seq<char>, args_json: Seq<char>) -> Seq<char> {
    digest_of(name + "|"@ + canonical_of(args_json), 16)
}

/// What a call of a tool by name does, for telling repetitions.
pub fn action_key_from_name(name: &str, args_json: &str) -> (r: String)
    ensures
        r@ == action_of(name@, args_json@),
{
    let arguments = canonical(args_json);
    let key = owned(name).concat("|").concat(arguments.as_str());
    digest(key.as_str(), 16)
}

/// What a call of a built-in tool does, for telling repetitions.
pub fn action_key(tool: BuiltinTool, args_json: &str) -> (r: String)
    ensures
        r@ == action_of(tool_name(tool), args_json@),
{
    action_key_from_name(tool.name(), args_json)
}

/// Arguments that are the same JSON document written differently do the same.
pub proof fn spelling_of_arguments_does_not_matter(name: Seq<char>, a: Seq<char>, b: Seq<char>)
    requires
        crate::json::json_parse(a) is Some,
        crate::json::json_parse(a) == crate::json::json_parse(b),
    ensures
        action_of(name, a) == action_of(name, b),
{
}

/// What was seen of a call: a digest of its status and what the model was told.
pub open spec fn seen_as(status: Seq<char>, payload: Seq<char>) -> Seq<char> {
    digest_of(status + "|"@ + payload, 16)
}

/// What was seen of a call.
pub fn observation_key(status: &str, bounded_payload: &str) -> (r: String)
    ensures
        r@ == seen_as(status@, bounded_payload@),
{
    let key = owned(status).concat("|").concat(bounded_payload);
    digest(key.as_str(), 16)
}

/// What was seen of a call: its tool, its status, and a digest of what the model was told.
pub open spec fn observation_of(tool: Seq<char>, status: Seq<char>, payload: Seq<char>) -> Seq<
    char,
> {
    tool + ":"@ + status + ":"@ + digest_of(payload, 24)
}

/// What was seen of a call, without anything that changes from run to run.
pub fn stable_observation(tool: &str, status: &str, payload: &str) -> (r: String)
    ensures
        r@ == observation_of(tool@, status@, payload@),
{
    let mark = digest(payload, 24);
    owned(tool).concat(":").concat(status).concat(":").concat(mark.as_str())
}

/// A file and the revision of it that was last seen.
#[derive(Debug, Clone, PartialEq, Eq)]
pub struct SeenRevision {
    pub path: String,
    pub revision: String,
}

/// A seen revision on a line.
pub open spec fn revision_line(seen: SeenRevision) -> Seq<char> {
    seen.path@ + "="@ + seen.revision@
}

/// The lines of some seen revisions.
pub open spec fn revision_lines(seen: Seq<SeenRevision>) -> Seq<Seq<char>> {
    Seq::new(seen.len(), |i: int| revision_line(seen[i]))
}

/// The state of the files that a call touches: a digest of their revisions, in an order of
/// their own; nothing for a call that touches no known file.
pub open spec fn stamp_of(access: ToolAccess, seen: Seq<SeenRevision>) -> Seq<char> {
    match access {
        ToolAccess::Resources(_) => digest_of(
            join_of(sorted_texts(revision_lines(seen)), ";"@),
            16,
        ),
        _ => Seq::empty(),
    }
}

/// The state of the files that a call touches. `seen` holds, for each file that the call
/// names exactly and of which a revision is known, that revision.
pub fn state_stamp_from_ctx(access: &ToolAccess, seen: &Vec<SeenRevision>) -> (r: String)
    ensures
        r@ == stamp_of(*access, seen@),
{
    match access {
        ToolAccess::Resources(_) => {
            let mut parts: Vec<String> = Vec::new();
            let mut i: usize = 0;
            assert(views(parts@) =~= revision_lines(seen@).take(0));
            while i < seen.len()
                invariant
                    i <= seen@.len(),
                    views(parts@) == revision_lines(seen@).take(i as int),
                decreases seen@.len() - i,
            {
                let line = seen[i].path.clone().concat("=").concat(seen[i].revision.as_str());
                proof {
                    views_push(parts@, line);
                }
                parts.push(line);
                i += 1;
                assert(views(parts@) =~= revision_lines(seen@).take(i as int));
            }
            assert(revision_lines(seen@).take(i as int) =~= revision_lines(seen@));
            let sorted = sort(parts);
            let joined = join(&sorted, ";");
            digest(joined.as_str(), 16)
        },
        _ => String::new(),
    }
}

/// The order in which files were looked at does not change their state.
pub proof fn stamp_forgets_order(access: ToolAccess, a: Seq<SeenRevision>, b: Seq<SeenRevision>)
    requires
        revision_lines(a).to_multiset() == revision_lines(b).to_multiset(),
    ensures
        stamp_of(access, a) == stamp_of(access, b),
{
    crate::order::sorting_forgets_order(revision_lines(a), revision_lines(b));
}

/// What a call did, what was seen of it, and in what state.
#[derive(Debug, Clone, PartialEq, Eq)]
pub struct RepeatKey {
    pub action: String,
    pub observation: String,
    pub state: String,
}

/// What a [`RepeatKey`] says.
pub struct RepeatKeyView {
    pub action: Seq<char>,
    pub observation: Seq<char>,
    pub state: Seq<char>,
}

impl View for RepeatKey {
    type V = RepeatKeyView;

    open spec fn view(&self) -> RepeatKeyView {
        RepeatKeyView {
            action: self.action@,
            observation: self.observation@,
            state: self.state@,
        }
    }
}

/// Tells whether calls repeat themselves without progress.
#[derive(Debug, Clone, PartialEq, Eq)]
pub struct ProgressTracker {
    known_workspace_epoch: u64,
    last: Option<RepeatKey>,
    repeat_count: u32,
}

/// What a [`ProgressTracker`] knows.
pub struct ProgressView {
    /// How often files are known to have changed.
    pub epoch: int,
    /// The last call.
    pub last: Option<RepeatKeyView>,
    /// How often the last call repeated the one before it.
    pub repeats: int,
}

impl View for ProgressTracker {
    type V = ProgressView;

    closed spec fn view(&self) -> ProgressView {
        ProgressView {
            epoch: self.known_workspace_epoch as int,
            last: crate::text::opt_view(self.last),
            repeats: self.repeat_count as int,
        }
    }
}

impl Default for ProgressTracker {
    fn default() -> (r: Self)
        ensures
            r@ == (ProgressView { epoch: 0, last: None, repeats: 0 }),
    {
        ProgressTracker { known_workspace_epoch: 0, last: None, repeat_count: 0 }
    }
}

/// The tracker after a call.
pub open spec fn observed(tracker: ProgressView, key: RepeatKeyView) -> ProgressView {
    ProgressView {
        epoch: tracker.epoch,
        last: Some(key),
        repeats: if tracker.last == Some(key) {
            tracker.repeats + 1
        } else {
            0
        },
    }
}

/// Whether a call is refused: it does what the last two did, both were seen to come to the
/// same, and the state is still the same.
pub open spec fn blocks(tracker: ProgressView, action: Seq<char>, state: Seq<char>) -> bool {
    &&& tracker.repeats >= 1
    &&& tracker.last matches Some(last)
    &&& last.action == action
    &&& last.state == state
}

/// What is known once files have changed.
pub open spec fn after_change(progress: ProgressView) -> ProgressView {
    ProgressView { epoch: progress.epoch + 1, ..progress }
}

impl ProgressTracker {
    /// Files have changed: what was tried may be tried again.
    pub fn bump_workspace_epoch(&mut self)
        requires
            old(self)@.epoch < u64::MAX,
        ensures
            final(self)@ == after_change(old(self)@),
    {
        self.known_workspace_epoch = self.known_workspace_epoch + 1;
    }

    /// How often files are known to have changed.
    pub fn workspace_epoch(&self) -> (r: u64)
        ensures
            r == self@.epoch,
    {
        self.known_workspace_epoch
    }

    /// How often the last call repeated the one before it.
    pub fn repeat_count(&self) -> (r: u32)
        ensures
            r == self@.repeats,
    {
        self.repeat_count
    }

    /// Whether a call is refused before it runs.
    pub fn should_block(&self, action: &str, state: &str) -> (r: bool)
        ensures
            r == blocks(self@, action@, state@),
    {
        if self.repeat_count < 1 {
            return false;
        }
        match &self.last {
            Some(key) => same(key.action.as_str(), action) && same(key.state.as_str(), state),
            None => false,
        }
    }

    /// Takes note of a call.
    pub fn observe(&mut self, action: &str, observation: &str, state: &str)
        requires
            old(self)@.repeats < u32::MAX,
        ensures
            final(self)@ == observed(
                old(self)@,
                RepeatKeyView { action: action@, observation: observation@, state: state@ },
            ),
    {
        let repeated = match &self.last {
            Some(key) => same(key.action.as_str(), action) && same(
                key.observation.as_str(),
                observation,
            ) && same(key.state.as_str(), state),
            None => false,
        };
        if repeated {
            self.repeat_count = self.repeat_count + 1;
        } else {
            self.repeat_count = 0;
        }
        self.last = Some(
            RepeatKey {
                action: owned(action),
                observation: owned(observation),
                state: owned(state),
            },
        );
    }
}

/// A call that came to the same twice in the same state is refused the third time.
pub proof fn third_identical_call_is_refused(tracker: ProgressView, key: RepeatKeyView)
    requires
        tracker.repeats >= 0,
    ensures
        blocks(observed(observed(tracker, key), key), key.action, key.state),
{
}

/// A call that was seen once, or came to something else the second time, is not refused.
pub proof fn progress_is_not_refused(tracker: ProgressView, a: RepeatKeyView, b: RepeatKeyView)
    requires
        tracker.last != Some(a),
        a != b,
    ensures
        !blocks(observed(tracker, a), a.action, a.state),
        !blocks(observed(observed(tracker, a), b), b.action, b.state),
{
}

/// A call in another state is not refused, whatever it repeats.
pub proof fn other_state_is_not_refused(
    tracker: ProgressView,
    key: RepeatKeyView,
    state: Seq<char>,
)
    requires
        state != key.state,
    ensures
        !blocks(observed(tracker, key), key.action, state),
{
}

/// The state of a call: that of its files, and how often files have changed.
pub open spec fn full_stamp(stamp: Seq<char>, epoch: int) -> Seq<char> {
    stamp + "|"@ + decimal_of(epoch as nat)
}

/// The state of a call: that of its files, and how often files have changed.
pub fn state_with_epoch(stamp: &str, epoch: u64) -> (r: String)
    ensures
        r@ == full_stamp(stamp@, epoch as int),
{
    let number = decimal(epoch as u128);
    owned(stamp).concat("|").concat(number.as_str())
}

/// The results in the order of the calls: the one of call `i` at position `i`, if there is one.
pub fn collect_by_source_index<T>(results: HashMap<usize, T>, count: usize) -> (r: Vec<Option<T>>)
    ensures
        r@.len() == count,
        forall|i: int|
            0 <= i < count ==> #[trigger] r@[i] == if results@.contains_key(i as usize) {
                Some(results@[i as usize])
            } else {
                None
            },
{
    broadcast use vstd::std_specs::hash::group_hash_axioms;

    let ghost all = results@;
    let mut rest = results;
    let mut ordered: Vec<Option<T>> = Vec::new();
    let mut index: usize = 0;
    while index < count
        invariant
            index <= count,
            ordered@.len() == index,
            forall|k: usize|
                k >= index ==> #[trigger] rest@.contains_key(k) == all.contains_key(k),
            forall|k: usize|
                k >= index && #[trigger] rest@.contains_key(k) ==> rest@[k] == all[k],
            forall|i: int|
                0 <= i < index ==> #[trigger] ordered@[i] == if all.contains_key(i as usize) {
                    Some(all[i as usize])
                } else {
                    None
                },
        decreases count - index,
    {
        let found = rest.remove(&index);
        ordered.push(found);
        index += 1;
    }
    ordered
}

} // verus!
