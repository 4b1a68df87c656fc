//! The recursive collector: from the files found under a directory, the
//! ones to stage, each with the path it takes inside the managed folder.
use vstd::prelude::*;
use crate::path_utils::{dir_prefix, prefix_of, file_name, file_name_of, is_under, join, join_path, path_is_under};
use crate::text::{from_chars, slice_chars, to_chars};

verus! {

/// How many levels below its directory a relative path lies: one for a
/// file directly in it.
pub open spec fn depth_of(rel: Seq<char>) -> nat {
    separators(rel) + 1
}

/// How many separators a path holds.
pub open spec fn separators(rel: Seq<char>) -> nat
    decreases rel.len(),
{
    if rel.len() == 0 {
        0
    } else {
        separators(rel.drop_last()) + if rel.last() == '/' { 1nat } else { 0nat }
    }
}

/// A depth bound of `None` or `Some(0)` sets no limit.
pub open spec fn within_depth(rel: Seq<char>, max_depth: Option<usize>) -> bool {
    match max_depth {
        Some(n) => n == 0 || depth_of(rel) <= n,
        None => true,
    }
}

/// The path of `file` relative to `root`.
pub open spec fn relative_to(file: Seq<char>, root: Seq<char>) -> Seq<char> {
    file.subrange(dir_prefix(root).len() as int, file.len() as int)
}

/// The path a file takes inside the managed folder: the root directory's
/// own name, then the file's path below it.
pub open spec fn mirrored(file: Seq<char>, root: Seq<char>) -> Seq<char> {
    match file_name_of(root) {
        Some(n) => join_path(n, relative_to(file, root)),
        None => relative_to(file, root),
    }
}

/// The files to stage, in the order found, each with its mirrored path.
pub open spec fn collected(root: Seq<char>, files: Seq<Seq<char>>, max_depth: Option<usize>) -> Seq<
    (Seq<char>, Seq<char>),
>
    decreases files.len(),
{
    if files.len() == 0 {
        seq![]
    } else {
        let prev = collected(root, files.drop_last(), max_depth);
        let f = files.last();
        if is_under(f, root, true) && within_depth(relative_to(f, root), max_depth) {
            prev.push((f, mirrored(f, root)))
        } else {
            prev
        }
    }
}

pub open spec fn pair_views(v: Seq<(String, String)>) -> Seq<(Seq<char>, Seq<char>)> {
    v.map_values(|p: (String, String)| (p.0@, p.1@))
}

pub open spec fn string_views(v: Seq<String>) -> Seq<Seq<char>> {
    v.map_values(|s: String| s@)
}

fn separator_count(rel: &Vec<char>) -> (d: usize)
    ensures
        d == separators(rel@),
{
    let mut d: usize = 0;
    let mut i: usize = 0;
    while i < rel.len()
        invariant
            i <= rel@.len(),
            d == separators(rel@.subrange(0, i as int)),
            d <= i,
        decreases rel@.len() - i,
    {
        assert(rel@.subrange(0, i as int + 1).drop_last() =~= rel@.subrange(0, i as int));
        if rel[i] == '/' {
            d = d + 1;
        }
        i = i + 1;
    }
    assert(rel@.subrange(0, rel@.len() as int) =~= rel@);
    d
}

/// The files of `files` (all found under `root`) that lie within the
/// depth bound, with the path each takes inside the managed folder.
pub fn collect_files(root: &str, files: &Vec<String>, max_depth: Option<usize>) -> (r: Vec<
    (String, String),
>)
    ensures
        pair_views(r@) == collected(root@, string_views(files@), max_depth),
{
    let name = file_name(root);
    let prefix_len = prefix_of(&to_chars(root)).len();
    assert(prefix_len == dir_prefix(root@).len());
    let mut r: Vec<(String, String)> = Vec::new();
    let mut i: usize = 0;
    while i < files.len()
        invariant
            i <= files@.len(),
            prefix_len == dir_prefix(root@).len(),
            match file_name_of(root@) {
                Some(n) => name is Some && name->0@ == n,
                None => name is None,
            },
            pair_views(r@) == collected(root@, string_views(files@).subrange(0, i as int), max_depth),
        decreases files@.len() - i,
    {
        let ghost sub = string_views(files@).subrange(0, i as int + 1);
        assert(sub.drop_last() =~= string_views(files@).subrange(0, i as int));
        let f = &files[i];
        if path_is_under(f.as_str(), root, true) {
            let fc = to_chars(f.as_str());
            let rel = slice_chars(&fc, prefix_len, fc.len());
            let d = separator_count(&rel);
            let keep = match max_depth {
                Some(n) => n == 0 || d < n,
                None => true,
            };
            if keep {
                let rel_s = from_chars(&rel);
                let out = match &name {
                    Some(n) => join(n.as_str(), rel_s.as_str()),
                    None => rel_s,
                };
                let ghost before = pair_views(r@);
                let fcopy = f.clone();
                r.push((fcopy, out));
                assert(pair_views(r@) =~= before.push((f@, mirrored(f@, root@))));
            }
        }
        i = i + 1;
    }
    assert(string_views(files@).subrange(0, files@.len() as int) =~= string_views(files@));
    r
}

/// Every file collected was found below the root and lies within the
/// depth bound; every file found below the root within the bound is
/// collected. With a bound of one, only files directly in the root are
/// collected: none from a subdirectory.
pub proof fn lemma_collected_within_depth(
    root: Seq<char>,
    files: Seq<Seq<char>>,
    max_depth: Option<usize>,
)
    ensures
        ({
            let c = collected(root, files, max_depth);
            &&& forall|i: int|
                0 <= i < c.len() ==> files.contains(#[trigger] c[i].0) && is_under(c[i].0, root, true)
                    && within_depth(relative_to(c[i].0, root), max_depth)
            &&& forall|f: Seq<char>|
                files.contains(f) && is_under(f, root, true) && within_depth(
                    relative_to(f, root),
                    max_depth,
                ) ==> exists|i: int| 0 <= i < c.len() && #[trigger] c[i].0 == f
            &&& max_depth == Some(1usize) ==> forall|i: int|
                0 <= i < c.len() ==> separators(relative_to(#[trigger] c[i].0, root)) == 0
        }),
    decreases files.len(),
{
    if files.len() > 0 {
        let d = files.drop_last();
        lemma_collected_within_depth(root, d, max_depth);
        let prev = collected(root, d, max_depth);
        let c = collected(root, files, max_depth);
        let last = files.last();
        assert forall|i: int|
            0 <= i < c.len() implies files.contains(#[trigger] c[i].0) && is_under(c[i].0, root, true)
                && within_depth(relative_to(c[i].0, root), max_depth) by {
            if i < prev.len() {
                assert(c[i] == prev[i]);
                let j = choose|j: int| 0 <= j < d.len() && d[j] == prev[i].0;
                assert(files[j] == d[j]);
            } else {
                assert(files[files.len() - 1] == last);
            }
        }
        assert forall|f: Seq<char>|
            files.contains(f) && is_under(f, root, true) && within_depth(relative_to(f, root), max_depth)
            implies exists|i: int| 0 <= i < c.len() && #[trigger] c[i].0 == f by {
            let j = choose|j: int| 0 <= j < files.len() && files[j] == f;
            if j < files.len() - 1 {
                assert(d[j] == f);
                assert(d.contains(f));
                let i = choose|i: int| 0 <= i < prev.len() && #[trigger] prev[i].0 == f;
                assert(c[i] == prev[i]);
            } else {
                assert(c[prev.len() as int].0 == f);
            }
        }
    }
}

} // verus!
