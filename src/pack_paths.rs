//! Where the files of a sealed pack go when it is installed or restored.
use vstd::prelude::*;
use crate::path_utils::{opt_str, dir_prefix, file_name, file_name_of, is_absolute, is_under, join, join_path, path_is_under, prefix_of};
use crate::text::{find_char, from_chars, owned, slice_chars, to_chars};

verus! {

/// `p` begins with the text `h`.
pub open spec fn begins_with(p: Seq<char>, h: Seq<char>) -> bool {
    p.len() >= h.len() && p.subrange(0, h.len() as int) == h
}

/// `p` relative to directory `d`: empty for `d` itself, `None` for a path
/// outside it.
pub open spec fn strip_dir(p: Seq<char>, d: Seq<char>) -> Option<Seq<char>> {
    if p == d {
        Some(seq![])
    } else if is_under(p, d, true) {
        Some(p.subrange(dir_prefix(d).len() as int, p.len() as int))
    } else {
        None
    }
}

pub open spec fn home_root() -> Seq<char> {
    seq!['/', 'h', 'o', 'm', 'e', '/']
}

/// For a path under `/home/<user>`, the directory `/home/<user>`.
pub open spec fn home_of_user(p: Seq<char>) -> Option<Seq<char>> {
    if begins_with(p, home_root()) {
        let rest = p.subrange(6, p.len() as int);
        if rest.contains('/') {
            let k = choose|k: int| 0 <= k < rest.len() && rest[k] == '/' && forall|j: int| 0 <= j < k ==> rest[j] != '/';
            Some(p.subrange(0, 6 + k))
        } else {
            Some(p)
        }
    } else {
        None
    }
}

/// `p` taken relative to `d` where it lies inside it, else as it is.
pub open spec fn relative_or_same(p: Seq<char>, d: Seq<char>) -> Seq<char> {
    match strip_dir(p, d) {
        Some(r) => r,
        None => p,
    }
}

/// Where `install` puts a packed file first stored at `original`: under
/// the target directory when one is given (mapping the home directory or
/// keeping the file name for absolute paths), else under the current home
/// directory when mapping homes, else in the working directory by file
/// name. `None` when no path can be made.
pub open spec fn install_target(
    original: Seq<char>,
    target: Option<Seq<char>>,
    map_home: bool,
    home: Option<Seq<char>>,
    cwd: Seq<char>,
) -> Option<Seq<char>> {
    match target {
        Some(t) => if map_home && is_absolute(original) && home is Some && begins_with(original, home->0) {
            Some(join_path(t, relative_or_same(original, home->0)))
        } else if !is_absolute(original) {
            Some(join_path(t, original))
        } else {
            match file_name_of(original) {
                Some(n) => Some(join_path(t, n)),
                None => None,
            }
        },
        None => if map_home {
            match home {
                Some(h) => match home_of_user(original) {
                    Some(u) => Some(join_path(h, relative_or_same(original, u))),
                    None => match file_name_of(original) {
                        Some(n) => Some(join_path(h, n)),
                        None => None,
                    },
                },
                None => None,
            }
        } else {
            match file_name_of(original) {
                Some(n) => Some(join_path(cwd, n)),
                None => None,
            }
        },
    }
}

/// Where `restore` puts a packed file first stored at `original`: back
/// there, or in test mode in the working directory by file name.
pub open spec fn restore_target(original: Seq<char>, test: bool, cwd: Seq<char>) -> Option<Seq<char>> {
    if test {
        match file_name_of(original) {
            Some(n) => Some(join_path(cwd, n)),
            None => None,
        }
    } else {
        Some(original)
    }
}

fn begins(p: &Vec<char>, h: &Vec<char>) -> (r: bool)
    ensures
        r == begins_with(p@, h@),
{
    if p.len() < h.len() {
        return false;
    }
    let mut i: usize = 0;
    while i < h.len()
        invariant
            h@.len() <= p@.len(),
            i <= h@.len(),
            p@.subrange(0, i as int) == h@.subrange(0, i as int),
        decreases h@.len() - i,
    {
        if p[i] != h[i] {
            assert(p@.subrange(0, h@.len() as int)[i as int] != h@[i as int]);
            return false;
        }
        i = i + 1;
        assert(p@.subrange(0, i as int) =~= h@.subrange(0, i as int));
    }
    assert(h@.subrange(0, h@.len() as int) =~= h@);
    true
}

fn relative_to_dir(p: &str, d: &str) -> (r: String)
    ensures
        r@ == relative_or_same(p@, d@),
{
    let ps = owned(p);
    let ds = owned(d);
    if ps == ds {
        return String::new();
    }
    if path_is_under(p, d, true) {
        let pc = to_chars(p);
        let n = prefix_of(&to_chars(d)).len();
        assert(n <= pc@.len());
        return from_chars(&slice_chars(&pc, n, pc.len()));
    }
    ps
}

fn user_home(p: &Vec<char>) -> (r: Option<Vec<char>>)
    ensures
        match home_of_user(p@) {
            Some(u) => r is Some && r->0@ == u,
            None => r is None,
        },
{
    let mut root: Vec<char> = Vec::new();
    root.push('/');
    root.push('h');
    root.push('o');
    root.push('m');
    root.push('e');
    root.push('/');
    assert(root@ =~= home_root());
    if !begins(p, &root) {
        return None;
    }
    let rest = slice_chars(p, 6, p.len());
    match find_char(&rest, '/') {
        Some(k) => {
            proof {
                let kk = choose|kk: int|
                    0 <= kk < rest@.len() && rest@[kk] == '/' && forall|j: int| 0 <= j < kk ==> rest@[j] != '/';
                if kk < k {
                } else if kk > k {
                    assert(rest@[k as int] == '/');
                }
                assert(kk == k);
            }
            Some(slice_chars(p, 0, 6 + k))
        },
        None => {
            assert(p@.subrange(0, p@.len() as int) =~= p@);
            Some(slice_chars(p, 0, p.len()))
        },
    }
}

/// Where `install` puts a packed file (see [`install_target`]).
pub fn calculate_install_target_path(
    original: &str,
    target: Option<&str>,
    map_home: bool,
    home: Option<&str>,
    cwd: &str,
) -> (r: Option<String>)
    ensures
        match install_target(original@, opt_str(target), map_home, opt_str(home), cwd@) {
            Some(p) => r is Some && r->0@ == p,
            None => r is None,
        },
{
    let oc = to_chars(original);
    let absolute = oc.len() > 0 && oc[0] == '/';
    match target {
        Some(t) => {
            if map_home && absolute {
                if let Some(h) = home {
                    if begins(&oc, &to_chars(h)) {
                        let rel = relative_to_dir(original, h);
                        return Some(join(t, rel.as_str()));
                    }
                }
            }
            if !absolute {
                return Some(join(t, original));
            }
            match file_name(original) {
                Some(n) => Some(join(t, n.as_str())),
                None => None,
            }
        },
        None => {
            if map_home {
                match home {
                    Some(h) => match user_home(&oc) {
                        Some(u) => {
                            let us = from_chars(&u);
                            let rel = relative_to_dir(original, us.as_str());
                            Some(join(h, rel.as_str()))
                        },
                        None => match file_name(original) {
                            Some(n) => Some(join(h, n.as_str())),
                            None => None,
                        },
                    },
                    None => None,
                }
            } else {
                match file_name(original) {
                    Some(n) => Some(join(cwd, n.as_str())),
                    None => None,
                }
            }
        },
    }
}

/// Where `restore` puts a packed file (see [`restore_target`]).
pub fn calculate_restore_target_path(original: &str, test: bool, cwd: &str) -> (r: Option<String>)
    ensures
        match restore_target(original@, test, cwd@) {
            Some(p) => r is Some && r->0@ == p,
            None => r is None,
        },
{
    if test {
        match file_name(original) {
            Some(n) => Some(join(cwd, n.as_str())),
            None => None,
        }
    } else {
        Some(owned(original))
    }
}

} // verus!
