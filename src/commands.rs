//! The decisions of the commands that are not plans: which path an
//! argument names, what a new managed folder is called, and which records
//! a link command takes.
use vstd::prelude::*;
use crate::config::Config;
use crate::dotfile::{DotFile, DotFileStatus, DotFileView};
use crate::path_utils::{file_name, file_name_of, is_absolute, join, join_path};
use crate::registry::{Query, RecordView, dotfile_views, first_match, select};
use crate::text::{owned, to_chars};

verus! {

/// The managed path that an argument names: an absolute path as it is, a
/// relative one by its file name inside the managed folder.
pub open spec fn target_of(forge_path: Seq<char>, file: Seq<char>) -> Option<Seq<char>> {
    if is_absolute(file) {
        Some(file)
    } else {
        match file_name_of(file) {
            Some(n) => Some(join_path(forge_path, n)),
            None => None,
        }
    }
}

/// The managed path that an argument names (see [`target_of`]); `None`
/// for an argument with no file name.
pub fn resolve_target(forge_path: &str, file: &str) -> (r: Option<String>)
    ensures
        match target_of(forge_path@, file@) {
            Some(t) => r is Some && r->0@ == t,
            None => r is None,
        },
{
    let fc = to_chars(file);
    if fc.len() > 0 && fc[0] == '/' {
        return Some(owned(file));
    }
    match file_name(file) {
        Some(n) => Some(join(forge_path, n.as_str())),
        None => None,
    }
}

/// The name a new managed folder gets: the one given, else the name of
/// its directory; `None` when neither exists.
pub fn init_folder_name(name: Option<&str>, dir: &str) -> (r: Option<String>)
    ensures
        match name {
            Some(n) => r is Some && r->0@ == n@,
            None => match file_name_of(dir@) {
                Some(d) => r is Some && r->0@ == d,
                None => r is None,
            },
        },
{
    match name {
        Some(n) => Some(owned(n)),
        None => file_name(dir),
    }
}

/// A staged record, or nothing.
pub open spec fn staged_only(d: Option<DotFileView>) -> Seq<DotFileView> {
    match d {
        Some(d) => if d.status == DotFileStatus::Staged {
            seq![d]
        } else {
            seq![]
        },
        None => seq![],
    }
}

/// The staged records that one argument names: for a directory, those of
/// the directory and below it; else the record of that target, or failing
/// one, of that source.
pub open spec fn picked(rows: Seq<RecordView>, path: Seq<char>, is_dir: bool) -> Seq<DotFileView> {
    if is_dir {
        select(rows, Query::ActiveStagedUnder(path))
    } else {
        match first_match(rows, Query::ActiveTarget(path)) {
            Some(d) => staged_only(Some(d)),
            None => staged_only(first_match(rows, Query::ActiveSource(path))),
        }
    }
}

/// The staged records that the arguments name, argument by argument.
pub open spec fn picked_all(rows: Seq<RecordView>, args: Seq<(Seq<char>, bool)>) -> Seq<
    DotFileView,
>
    decreases args.len(),
{
    if args.len() == 0 {
        seq![]
    } else {
        picked_all(rows, args.drop_last()) + picked(rows, args.last().0, args.last().1)
    }
}

pub open spec fn arg_views(v: Seq<(String, bool)>) -> Seq<(Seq<char>, bool)> {
    v.map_values(|a: (String, bool)| (a.0@, a.1))
}

fn append_all(dst: &mut Vec<DotFile>, src: Vec<DotFile>)
    ensures
        dotfile_views(final(dst)@) == dotfile_views(old(dst)@) + dotfile_views(src@),
{
    let mut src = src;
    let ghost a = dotfile_views(dst@);
    let ghost b = dotfile_views(src@);
    dst.append(&mut src);
    assert(dotfile_views(dst@) =~= a + b);
}

fn pick(config: &Config, path: &String, is_dir: bool) -> (r: Vec<DotFile>)
    ensures
        dotfile_views(r@) == picked(config.rows(), path@, is_dir),
{
    if is_dir {
        return config.select(&crate::registry::Selector::ActiveStagedUnder(path.clone()));
    }
    let found = match config.find_dotfile_by_target(path.as_str()) {
        Some(d) => Some(d),
        None => config.find_dotfile_by_source(path.as_str()),
    };
    let mut r: Vec<DotFile> = Vec::new();
    match found {
        Some(d) => {
            if d.status == DotFileStatus::Staged {
                let ghost v = d@;
                r.push(d);
                assert(dotfile_views(r@) =~= seq![v]);
            } else {
                assert(dotfile_views(r@) =~= seq![]);
            }
        },
        None => {
            assert(dotfile_views(r@) =~= seq![]);
        },
    }
    r
}

/// The records that a link command takes: with no argument, every staged
/// record of the active managed folder `forge_path`; else those that the
/// arguments name (each argument is a normalised path and whether it is a
/// directory).
pub fn link_candidates(config: &Config, forge_path: &str, args: &Vec<(String, bool)>) -> (r: Vec<
    DotFile,
>)
    ensures
        args@.len() == 0 ==> dotfile_views(r@) == select(
            config.rows(),
            Query::ActiveStagedIn(forge_path@),
        ),
        args@.len() > 0 ==> dotfile_views(r@) == picked_all(config.rows(), arg_views(args@)),
{
    if args.len() == 0 {
        return config.select(&crate::registry::Selector::ActiveStagedIn(owned(forge_path)));
    }
    let mut r: Vec<DotFile> = Vec::new();
    let mut i: usize = 0;
    assert(dotfile_views(r@) =~= seq![]);
    while i < args.len()
        invariant
            i <= args@.len(),
            dotfile_views(r@) == picked_all(config.rows(), arg_views(args@).subrange(0, i as int)),
        decreases args@.len() - i,
    {
        let ghost sub = arg_views(args@).subrange(0, i as int + 1);
        assert(sub.drop_last() =~= arg_views(args@).subrange(0, i as int));
        let part = pick(config, &args[i].0, args[i].1);
        append_all(&mut r, part);
        i = i + 1;
    }
    assert(arg_views(args@).subrange(0, args@.len() as int) =~= arg_views(args@));
    r
}

/// The index of the last `c` in `s`.
pub open spec fn last_index_of(s: Seq<char>, c: char) -> Option<int>
    decreases s.len(),
{
    if s.len() == 0 {
        None
    } else if s.last() == c {
        Some(s.len() - 1)
    } else {
        last_index_of(s.drop_last(), c)
    }
}

/// The extension of a file name: what follows its last `.`, unless that
/// `.` starts the name.
pub open spec fn extension_of(name: Seq<char>) -> Option<Seq<char>> {
    match last_index_of(name, '.') {
        Some(k) => if k > 0 {
            Some(name.subrange(k + 1, name.len() as int))
        } else {
            None
        },
        None => None,
    }
}

/// Whether a file found in a profile directory gets a symlink: it is not
/// ignored, and `.` followed by its extension is an approved file type.
pub open spec fn links_in_profile(
    path: Seq<char>,
    filetypes: Seq<Seq<char>>,
    ignored: Seq<Seq<char>>,
) -> bool {
    !ignored.contains(path) && match file_name_of(path) {
        Some(n) => match extension_of(n) {
            Some(e) => filetypes.contains(seq!['.'] + e),
            None => false,
        },
        None => false,
    }
}

fn last_dot(s: &Vec<char>) -> (r: Option<usize>)
    ensures
        match last_index_of(s@, '.') {
            Some(k) => r is Some && r->0 == k,
            None => r is None,
        },
        r is Some ==> r->0 < s@.len() && s@[r->0 as int] == '.',
{
    let mut i: usize = s.len();
    assert(s@.subrange(0, i as int) =~= s@);
    while i > 0
        invariant
            i <= s@.len(),
            last_index_of(s@, '.') == last_index_of(s@.subrange(0, i as int), '.'),
        decreases i,
    {
        assert(s@.subrange(0, i as int).drop_last() =~= s@.subrange(0, i as int - 1));
        if s[i - 1] == '.' {
            return Some(i - 1);
        }
        i = i - 1;
    }
    None
}

fn list_contains(v: &Vec<String>, s: &String) -> (r: bool)
    ensures
        r == crate::config::line_views(v@).contains(s@),
{
    let mut i: usize = 0;
    while i < v.len()
        invariant
            i <= v@.len(),
            forall|k: int| 0 <= k < i ==> v@[k]@ != s@,
        decreases v@.len() - i,
    {
        if v[i] == *s {
            assert(crate::config::line_views(v@)[i as int] == s@);
            return true;
        }
        i = i + 1;
    }
    false
}

/// Whether a file found in a profile directory gets a symlink (see
/// [`links_in_profile`]).
pub fn should_link(path: &String, filetypes: &Vec<String>, ignored: &Vec<String>) -> (r: bool)
    ensures
        r == links_in_profile(
            path@,
            crate::config::line_views(filetypes@),
            crate::config::line_views(ignored@),
        ),
{
    if list_contains(ignored, path) {
        return false;
    }
    let name = match file_name(path.as_str()) {
        Some(n) => n,
        None => return false,
    };
    let nc = to_chars(name.as_str());
    match last_dot(&nc) {
        Some(k) => {
            if k == 0 {
                return false;
            }
            let ext = crate::text::slice_chars(&nc, k, nc.len());
            let e = crate::text::from_chars(&ext);
            assert(nc@[k as int] == '.');
            assert(e@ =~= seq!['.'] + nc@.subrange(k + 1, nc@.len() as int));
            list_contains(filetypes, &e)
        },
        None => false,
    }
}

} // verus!
