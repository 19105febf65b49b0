//! Finding programs.
//!
//! A program is looked for where the platform would look for it. A batch script is no
//! program of its own: it is started through the command interpreter, and marked so.
use crate::path::components;
use crate::path::extension;
use crate::path::is_absolute;
use crate::path::join_path;
use crate::path::path_components;
use crate::path::path_extension;
use crate::path::path_is_absolute;
use crate::path::path_join;
use crate::path::path_with_extension;
use crate::path::with_extension;
use crate::text::contains;
use crate::text::has_text;
use crate::text::lowercase;
use crate::text::lowercase_of;
use crate::text::owned;
use crate::text::replace;
use crate::text::replace_of;
use crate::text::same;
use crate::text::skip;
use crate::text::skip_of;
use crate::text::split;
use crate::text::split_of;
use crate::text::views;
use crate::text::views_push;
use vstd::prelude::*;
use vstd::string::*;

verus! {

/// A program that was found.
#[derive(Debug, Clone, PartialEq, Eq)]
pub struct ResolvedProgram {
    pub path: String,
    /// How it is started, where that is not directly.
    pub launcher: Option<&'static str>,
}

/// What a [`ResolvedProgram`] says.
pub struct ResolvedView {
    pub path: Seq<char>,
    pub launcher: Option<Seq<char>>,
}

impl View for ResolvedProgram {
    type V = ResolvedView;

    open spec fn view(&self) -> ResolvedView {
        ResolvedView {
            path: self.path@,
            launcher: match self.launcher {
                Some(launcher) => Some(launcher@),
                None => None,
            },
        }
    }
}

/// Whether a program is named by where it is, and so is not looked for.
pub open spec fn names_a_place(program: Seq<char>) -> bool {
    path_components(program).len() > 1 || path_is_absolute(program)
}

/// Whether a program is named by where it is, and so is not looked for.
pub fn is_explicit(program: &str) -> (r: bool)
    ensures
        r == names_a_place(program@),
{
    let parts = components(program);
    assert(views(parts@).len() == parts@.len());
    parts.len() > 1 || is_absolute(program)
}

/// The parts of a list that are not empty, in lower case.
pub open spec fn filled(parts: Seq<Seq<char>>) -> Seq<Seq<char>>
    decreases parts.len(),
{
    if parts.len() == 0 {
        Seq::empty()
    } else {
        let before = filled(parts.drop_last());
        if parts.last().len() == 0 {
            before
        } else {
            before.push(lowercase_of(parts.last()))
        }
    }
}

/// The extensions of programs: those that the platform names, or the usual ones.
pub fn program_extensions(value: &Option<String>) -> (r: Vec<String>)
    ensures
        views(r@) == filled(
            split_of(
                match *value {
                    Some(value) => value@,
                    None => ".COM;.EXE;.BAT;.CMD"@,
                },
                ';',
            ),
        ),
{
    let text = match value {
        Some(value) => value.clone(),
        None => owned(".COM;.EXE;.BAT;.CMD"),
    };
    let parts = split(text.as_str(), ';');
    let ghost all = split_of(text@, ';');
    let mut out: Vec<String> = Vec::new();
    let mut i: usize = 0;
    assert(views(out@) =~= filled(all.take(0)));
    while i < parts.len()
        invariant
            i <= parts@.len(),
            views(parts@) == all,
            views(out@) == filled(all.take(i as int)),
        decreases parts@.len() - i,
    {
        proof {
            let next = all.take(i + 1);
            assert(next.drop_last() =~= all.take(i as int));
            assert(next.last() == parts@[i as int]@);
        }
        if !parts[i].as_str().is_empty() {
            let small = lowercase(parts[i].as_str());
            proof {
                views_push(out@, small);
            }
            out.push(small);
        }
        i += 1;
    }
    assert(all.take(i as int) =~= all);
    out
}

/// An extension without its dots.
pub open spec fn bare(ext: Seq<char>) -> Seq<char> {
    skip_of(ext, '.')
}

/// Whether extensions are names and no paths.
pub open spec fn are_names(exts: Seq<Seq<char>>) -> bool {
    forall|i: int|
        0 <= i < exts.len() ==> !(#[trigger] bare(exts[i])).contains('/') && !bare(
            exts[i],
        ).contains('\\')
}

/// A path with each of the extensions.
pub open spec fn with_each(path: Seq<char>, exts: Seq<Seq<char>>) -> Seq<Seq<char>> {
    Seq::new(exts.len(), |i: int| path_with_extension(path, bare(exts[i])))
}

/// A path as often as there are extensions.
pub open spec fn repeated(path: Seq<char>, exts: Seq<Seq<char>>) -> Seq<Seq<char>> {
    Seq::new(exts.len(), |i: int| path)
}

/// Where a program may be in a directory: under each extension, unless its name has one,
/// and under its name.
pub open spec fn places_in(dir: Seq<char>, program: Seq<char>, exts: Seq<Seq<char>>) -> Seq<
    Seq<char>,
> {
    let base = path_join(dir, program);
    (if has_text(program, "."@) {
        repeated(base, exts)
    } else {
        with_each(base, exts)
    }).push(base)
}

/// Where a program may be in some directories.
pub open spec fn places_in_all(
    dirs: Seq<Seq<char>>,
    program: Seq<char>,
    exts: Seq<Seq<char>>,
) -> Seq<Seq<char>>
    decreases dirs.len(),
{
    if dirs.len() == 0 {
        Seq::empty()
    } else {
        places_in_all(dirs.drop_last(), program, exts) + places_in(dirs.last(), program, exts)
    }
}

/// Where a program may be on a platform with extensions, in the order in which it is looked
/// for.
pub open spec fn windows_places(
    program: Seq<char>,
    exts: Seq<Seq<char>>,
    dirs: Seq<Seq<char>>,
) -> Seq<Seq<char>> {
    if names_a_place(program) {
        with_each(program, exts).push(program)
    } else {
        places_in_all(dirs, program, exts)
    }
}

/// Where a program may be on a platform without extensions.
pub open spec fn unix_places(program: Seq<char>, dirs: Seq<Seq<char>>) -> Seq<Seq<char>> {
    if names_a_place(program) {
        Seq::empty()
    } else {
        Seq::new(dirs.len(), |i: int| path_join(dirs[i], program))
    }
}

fn add_each(out: &mut Vec<String>, path: &str, exts: &Vec<String>, named: bool)
    requires
        are_names(views(exts@)),
    ensures
        views(final(out)@) == views(old(out)@) + if named {
            repeated(path@, views(exts@))
        } else {
            with_each(path@, views(exts@))
        },
{
    let ghost before = views(out@);
    let ghost all = views(exts@);
    let ghost each = if named {
        repeated(path@, all)
    } else {
        with_each(path@, all)
    };
    let mut i: usize = 0;
    assert(before + each.take(0) =~= before);
    while i < exts.len()
        invariant
            i <= exts@.len(),
            all == views(exts@),
            are_names(all),
            each == if named {
                repeated(path@, all)
            } else {
                with_each(path@, all)
            },
            views(out@) == before + each.take(i as int),
        decreases exts@.len() - i,
    {
        assert(all[i as int] == exts@[i as int]@);
        assert(!bare(all[i as int]).contains('/'));
        let ext = skip(exts[i].as_str(), '.');
        let place = if named {
            owned(path)
        } else {
            with_extension(path, ext.as_str())
        };
        proof {
            views_push(out@, place);
        }
        out.push(place);
        assert(views(out@) =~= before + each.take(i + 1));
        i += 1;
    }
    assert(each.take(i as int) =~= each);
}

fn add_place(out: &mut Vec<String>, path: String)
    ensures
        views(final(out)@) == views(old(out)@).push(path@),
{
    proof {
        views_push(out@, path);
    }
    out.push(path);
}

/// Where a program may be on a platform with extensions, in the order in which it is looked
/// for. `dirs` are the directories that are searched.
pub fn windows_candidates(program: &str, exts: &Vec<String>, dirs: &Vec<String>) -> (r: Vec<String>)
    requires
        are_names(views(exts@)),
    ensures
        views(r@) == windows_places(program@, views(exts@), views(dirs@)),
{
    let mut out: Vec<String> = Vec::new();
    let ghost each = views(exts@);
    if is_explicit(program) {
        add_each(&mut out, program, exts, false);
        add_place(&mut out, owned(program));
        assert(views(out@) =~= with_each(program@, each).push(program@));
        return out;
    }
    let named = contains(program, ".");
    let ghost all = views(dirs@);
    let mut i: usize = 0;
    assert(views(out@) =~= places_in_all(all.take(0), program@, each));
    while i < dirs.len()
        invariant
            i <= dirs@.len(),
            all == views(dirs@),
            each == views(exts@),
            are_names(each),
            named == has_text(program@, "."@),
            views(out@) == places_in_all(all.take(i as int), program@, each),
        decreases dirs@.len() - i,
    {
        let ghost before = views(out@);
        proof {
            let next = all.take(i + 1);
            assert(next.drop_last() =~= all.take(i as int));
            assert(next.last() == dirs@[i as int]@);
        }
        let base = join_path(dirs[i].as_str(), program);
        add_each(&mut out, base.as_str(), exts, named);
        add_place(&mut out, base);
        assert(views(out@) =~= before + places_in(dirs@[i as int]@, program@, each));
        i += 1;
    }
    assert(all.take(i as int) =~= all);
    out
}

/// Where a program may be on a platform without extensions, in the order in which it is
/// looked for. A program that is named by where it is, is not looked for.
pub fn unix_candidates(program: &str, dirs: &Vec<String>) -> (r: Vec<String>)
    ensures
        views(r@) == unix_places(program@, views(dirs@)),
{
    let mut out: Vec<String> = Vec::new();
    if is_explicit(program) {
        assert(views(out@) =~= unix_places(program@, views(dirs@)));
        return out;
    }
    let ghost places = unix_places(program@, views(dirs@));
    let mut i: usize = 0;
    assert(views(out@) =~= places.take(0));
    while i < dirs.len()
        invariant
            i <= dirs@.len(),
            !names_a_place(program@),
            places == unix_places(program@, views(dirs@)),
            views(out@) == places.take(i as int),
        decreases dirs@.len() - i,
    {
        add_place(&mut out, join_path(dirs[i].as_str(), program));
        assert(views(out@) =~= places.take(i + 1));
        i += 1;
    }
    assert(places.take(i as int) =~= places);
    out
}

/// Whether a path is that of a batch script.
pub open spec fn is_batch(path: Seq<char>) -> bool {
    path_extension(path) matches Some(ext) && (lowercase_of(ext) == "bat"@ || lowercase_of(ext)
        == "cmd"@)
}

fn batch(path: &str) -> (r: bool)
    ensures
        r == is_batch(path@),
{
    match extension(path) {
        Some(ext) => {
            let small = lowercase(ext.as_str());
            same(small.as_str(), "bat") || same(small.as_str(), "cmd")
        },
        None => false,
    }
}

/// The first place, from place `i` on, where there is something.
pub open spec fn first_there(exists: Seq<bool>, i: int) -> Option<int>
    decreases exists.len() - i,
{
    if i < 0 || i >= exists.len() {
        None
    } else if exists[i] {
        Some(i)
    } else {
        first_there(exists, i + 1)
    }
}

/// The program that is meant: the first place where there is something, and the name as it
/// is where there is none.
pub open spec fn resolved_of(
    program: Seq<char>,
    candidates: Seq<Seq<char>>,
    exists: Seq<bool>,
    scripts: bool,
) -> ResolvedView {
    match first_there(exists, 0) {
        Some(i) => ResolvedView {
            path: candidates[i],
            launcher: if scripts && is_batch(candidates[i]) {
                Some("cmd-script"@)
            } else {
                None
            },
        },
        None => ResolvedView { path: program, launcher: None },
    }
}

/// The program that is meant: the first place where there is something, and the name as it
/// is where there is none. `exists` says of each place whether there is something;
/// `scripts` whether the platform has batch scripts.
pub fn resolve(program: &str, candidates: &Vec<String>, exists: &Vec<bool>, scripts: bool) -> (r:
    ResolvedProgram)
    requires
        exists@.len() == candidates@.len(),
    ensures
        r@ == resolved_of(program@, views(candidates@), exists@, scripts),
{
    let mut i: usize = 0;
    while i < candidates.len()
        invariant
            i <= candidates@.len() == exists@.len(),
            first_there(exists@, 0) == first_there(exists@, i as int),
        decreases candidates@.len() - i,
    {
        if exists[i] {
            let launcher: Option<&'static str> = if scripts && batch(candidates[i].as_str()) {
                Some("cmd-script")
            } else {
                None
            };
            return ResolvedProgram { path: candidates[i].clone(), launcher };
        }
        i += 1;
    }
    ResolvedProgram { path: owned(program), launcher: None }
}

/// An argument, in quotes where it would fall apart otherwise.
pub open spec fn cmd_quoted(arg: Seq<char>) -> Seq<char> {
    if has_text(arg, " "@) || has_text(arg, "\""@) || arg.len() == 0 {
        "\""@ + replace_of(arg, "\""@, "\\\""@) + "\""@
    } else {
        arg
    }
}

/// An argument, in quotes where it would fall apart otherwise.
pub fn quote_cmd_arg(arg: &str) -> (r: String)
    ensures
        r@ == cmd_quoted(arg@),
{
    proof {
        reveal_strlit("\"");
    }
    if contains(arg, " ") || contains(arg, "\"") || arg.is_empty() {
        let inner = replace(arg, "\"", "\\\"");
        owned("\"").concat(inner.as_str()).concat("\"")
    } else {
        owned(arg)
    }
}

/// A command line: the script in quotes, and each argument on its own.
pub open spec fn cmd_line(script: Seq<char>, args: Seq<Seq<char>>) -> Seq<char>
    decreases args.len(),
{
    if args.len() == 0 {
        "\""@ + script + "\""@
    } else {
        cmd_line(script, args.drop_last()) + " "@ + cmd_quoted(args.last())
    }
}

/// How a batch script is started: through the command interpreter, with one command line of
/// the script and its arguments. The interpreter takes one pair of quotes off, so the whole
/// line stands in a pair of its own.
pub fn build_cmd_launcher(resolved: &str, args: &[String]) -> (r: (String, Vec<String>))
    ensures
        r.0@ == "cmd.exe"@,
        views(r.1@) == seq![
            "/d"@,
            "/s"@,
            "/c"@,
            "\""@ + cmd_line(resolved@, views(args@)) + "\""@,
        ],
{
    let mut line = owned("\"").concat(resolved).concat("\"");
    let ghost all = views(args@);
    let mut i: usize = 0;
    assert(line@ == cmd_line(resolved@, all.take(0)));
    while i < args.len()
        invariant
            i <= args@.len(),
            all == views(args@),
            line@ == cmd_line(resolved@, all.take(i as int)),
        decreases args@.len() - i,
    {
        proof {
            let next = all.take(i + 1);
            assert(next.drop_last() =~= all.take(i as int));
            assert(next.last() == args@[i as int]@);
        }
        let arg = quote_cmd_arg(args[i].as_str());
        line.append(" ");
        line.append(arg.as_str());
        i += 1;
    }
    assert(all.take(i as int) =~= all);
    let mut command: Vec<String> = Vec::new();
    command.push(owned("/d"));
    command.push(owned("/s"));
    command.push(owned("/c"));
    command.push(owned("\"").concat(line.as_str()).concat("\""));
    assert(views(command@) =~= seq![
        "/d"@,
        "/s"@,
        "/c"@,
        "\""@ + cmd_line(resolved@, views(args@)) + "\""@,
    ]);
    (owned("cmd.exe"), command)
}

} // verus!
