//! Path normalisation: `~` expansion, `.`/`..` removal and making a path
//! absolute against a given working directory.
//!
//! Paths are handled as text, with `/` as the only separator.
use vstd::prelude::*;
use crate::text::{from_chars, to_chars};

verus! {

/// A path is absolute when it starts at the root.
pub open spec fn is_absolute(p: Seq<char>) -> bool {
    p.len() > 0 && p[0] == '/'
}

/// Adds one finished segment to the stack of kept segments: empty and `.`
/// segments vanish, `..` drops the last kept segment (never the root).
pub open spec fn flush_segment(stack: Seq<Seq<char>>, cur: Seq<char>) -> Seq<Seq<char>> {
    if cur.len() == 0 || cur == seq!['.'] {
        stack
    } else if cur == seq!['.', '.'] {
        if stack.len() > 0 {
            stack.drop_last()
        } else {
            stack
        }
    } else {
        stack.push(cur)
    }
}

/// The kept segments and the segment being read after the first `n`
/// characters of `p`.
pub open spec fn scan_segments(p: Seq<char>, n: nat) -> (Seq<Seq<char>>, Seq<char>)
    decreases n,
{
    if n == 0 || n > p.len() {
        (seq![], seq![])
    } else {
        let prev = scan_segments(p, (n - 1) as nat);
        if p[n - 1] == '/' {
            (flush_segment(prev.0, prev.1), seq![])
        } else {
            (prev.0, prev.1.push(p[n - 1]))
        }
    }
}

/// The segments of `p` that remain once `.` and `..` are resolved.
pub open spec fn clean_segments(p: Seq<char>) -> Seq<Seq<char>> {
    let s = scan_segments(p, p.len());
    flush_segment(s.0, s.1)
}

/// Segments joined by single separators.
pub open spec fn join_segments(segs: Seq<Seq<char>>) -> Seq<char>
    decreases segs.len(),
{
    if segs.len() == 0 {
        seq![]
    } else if segs.len() == 1 {
        segs[0]
    } else {
        join_segments(segs.drop_last()) + seq!['/'] + segs.last()
    }
}

/// `p` with `.` and `..` resolved and repeated separators collapsed; it
/// keeps the root when `p` has one.
pub open spec fn cleaned(p: Seq<char>) -> Seq<char> {
    if is_absolute(p) {
        seq!['/'] + join_segments(clean_segments(p))
    } else {
        join_segments(clean_segments(p))
    }
}

/// `b` appended to `a` as a path: an absolute `b` replaces `a`, an empty
/// `b` leaves `a` as it is.
pub open spec fn join_path(a: Seq<char>, b: Seq<char>) -> Seq<char> {
    if b.len() == 0 {
        a
    } else if is_absolute(b) || a.len() == 0 {
        b
    } else if a.last() == '/' {
        a + b
    } else {
        a + seq!['/'] + b
    }
}

/// The path starts with the component `~`.
pub open spec fn has_tilde_root(p: Seq<char>) -> bool {
    p.len() > 0 && p[0] == '~' && (p.len() == 1 || p[1] == '/')
}

/// `p` with a leading `~` component replaced by the home directory, when
/// one is known.
pub open spec fn tilde_expanded(p: Seq<char>, home: Option<Seq<char>>) -> Seq<char> {
    if has_tilde_root(p) && home is Some {
        if p.len() == 1 {
            home->0
        } else {
            join_path(home->0, p.subrange(2, p.len() as int))
        }
    } else {
        p
    }
}

/// The normal form of `p`: home expanded, `.` and `..` resolved, and made
/// absolute against `cwd` when it is relative.
pub open spec fn normalized(p: Seq<char>, home: Option<Seq<char>>, cwd: Seq<char>) -> Seq<char> {
    let e = tilde_expanded(p, home);
    if is_absolute(e) {
        cleaned(e)
    } else {
        join_path(cwd, cleaned(e))
    }
}

/// Appends all of `src` to `dst`.
pub(crate) fn push_all(dst: &mut Vec<char>, src: &Vec<char>)
    ensures
        final(dst)@ == old(dst)@ + src@,
{
    let ghost start = dst@;
    let mut i: usize = 0;
    while i < src.len()
        invariant
            i <= src@.len(),
            dst@ == start + src@.subrange(0, i as int),
        decreases src@.len() - i,
    {
        dst.push(src[i]);
        i = i + 1;
        assert(dst@ =~= start + src@.subrange(0, i as int));
    }
    assert(src@.subrange(0, src@.len() as int) =~= src@);
}

pub(crate) open spec fn views(v: Seq<Vec<char>>) -> Seq<Seq<char>> {
    v.map_values(|x: Vec<char>| x@)
}

fn is_dot(cur: &Vec<char>) -> (r: bool)
    ensures
        r == (cur@ == seq!['.']),
{
    if cur.len() == 1 && cur[0] == '.' {
        assert(cur@ =~= seq!['.']);
        true
    } else {
        false
    }
}

fn is_dot_dot(cur: &Vec<char>) -> (r: bool)
    ensures
        r == (cur@ == seq!['.', '.']),
{
    if cur.len() == 2 && cur[0] == '.' && cur[1] == '.' {
        assert(cur@ =~= seq!['.', '.']);
        true
    } else {
        false
    }
}

fn flush(stack: &mut Vec<Vec<char>>, cur: Vec<char>)
    ensures
        views(final(stack)@) == flush_segment(views(old(stack)@), cur@),
{
    if cur.len() == 0 || is_dot(&cur) {
    } else if is_dot_dot(&cur) {
        if stack.len() > 0 {
            let _ = stack.pop();
            assert(views(stack@) =~= views(old(stack)@).drop_last());
        }
    } else {
        let ghost c = cur@;
        stack.push(cur);
        assert(views(stack@) =~= views(old(stack)@).push(c));
    }
}

fn segments_of(p: &Vec<char>) -> (r: Vec<Vec<char>>)
    ensures
        views(r@) == clean_segments(p@),
{
    let mut stack: Vec<Vec<char>> = Vec::new();
    let mut cur: Vec<char> = Vec::new();
    let mut i: usize = 0;
    assert(views(stack@) =~= seq![]);
    while i < p.len()
        invariant
            i <= p@.len(),
            (views(stack@), cur@) == scan_segments(p@, i as nat),
        decreases p@.len() - i,
    {
        let c = p[i];
        if c == '/' {
            flush(&mut stack, cur);
            cur = Vec::new();
            assert(cur@ =~= seq![]);
        } else {
            cur.push(c);
        }
        i = i + 1;
    }
    flush(&mut stack, cur);
    stack
}

fn join_all(segs: &Vec<Vec<char>>) -> (r: Vec<char>)
    ensures
        r@ == join_segments(views(segs@)),
{
    let mut r: Vec<char> = Vec::new();
    let mut i: usize = 0;
    while i < segs.len()
        invariant
            i <= segs@.len(),
            r@ == join_segments(views(segs@).subrange(0, i as int)),
        decreases segs@.len() - i,
    {
        proof {
            let s = views(segs@).subrange(0, i as int + 1);
            assert(s.drop_last() =~= views(segs@).subrange(0, i as int));
        }
        if i > 0 {
            r.push('/');
        }
        push_all(&mut r, &segs[i]);
        i = i + 1;
        proof {
            let s = views(segs@).subrange(0, i as int);
            if i == 1 {
                assert(r@ =~= s[0]);
            } else {
                assert(r@ =~= join_segments(s.drop_last()) + seq!['/'] + s.last());
            }
        }
    }
    assert(views(segs@).subrange(0, segs@.len() as int) =~= views(segs@));
    r
}

fn cleaned_chars(p: &Vec<char>) -> (r: Vec<char>)
    ensures
        r@ == cleaned(p@),
{
    let segs = segments_of(p);
    let body = join_all(&segs);
    if p.len() > 0 && p[0] == '/' {
        let mut r: Vec<char> = Vec::new();
        r.push('/');
        push_all(&mut r, &body);
        assert(r@ =~= seq!['/'] + body@);
        r
    } else {
        body
    }
}

fn join_chars(a: &Vec<char>, b: &Vec<char>) -> (r: Vec<char>)
    ensures
        r@ == join_path(a@, b@),
{
    if b.len() == 0 {
        a.clone()
    } else if b[0] == '/' || a.len() == 0 {
        b.clone()
    } else {
        let mut r: Vec<char> = Vec::new();
        push_all(&mut r, a);
        if a[a.len() - 1] != '/' {
            r.push('/');
        }
        push_all(&mut r, b);
        r
    }
}

fn expand_chars(p: &Vec<char>, home: Option<&str>) -> (r: Vec<char>)
    ensures
        r@ == tilde_expanded(p@, match home { Some(h) => Some(h@), None => None }),
{
    if p.len() > 0 && p[0] == '~' && (p.len() == 1 || p[1] == '/') {
        match home {
            Some(h) => {
                let hc = to_chars(h);
                if p.len() == 1 {
                    hc
                } else {
                    let mut rest: Vec<char> = Vec::new();
                    let mut i: usize = 2;
                    while i < p.len()
                        invariant
                            2 <= i <= p@.len(),
                            rest@ == p@.subrange(2, i as int),
                        decreases p@.len() - i,
                    {
                        rest.push(p[i]);
                        i = i + 1;
                        assert(rest@ =~= p@.subrange(2, i as int));
                    }
                    join_chars(&hc, &rest)
                }
            },
            None => p.clone(),
        }
    } else {
        p.clone()
    }
}

/// Relies on `dirs::home_dir`: the current user's home directory, if the
/// platform reports one. It depends on the environment, so nothing is
/// stated of it.
#[verifier::external_body]
fn home_dir() -> (r: Option<String>) {
    dirs::home_dir().map(|h| h.to_string_lossy().to_string())
}

/// Removes `.` components and resolves `..` against the component before
/// it, without touching the filesystem.
pub fn clean_path_components(path: &str) -> (r: String)
    ensures
        r@ == cleaned(path@),
{
    let p = to_chars(path);
    from_chars(&cleaned_chars(&p))
}

/// Replaces a leading `~` component by `home`; other paths are unchanged.
pub fn expand_tilde_with(path: &str, home: Option<&str>) -> (r: String)
    ensures
        r@ == tilde_expanded(path@, match home { Some(h) => Some(h@), None => None }),
{
    let p = to_chars(path);
    from_chars(&expand_chars(&p, home))
}

/// Replaces a leading `~` component by the user's home directory.
pub fn expand_tilde(path: &str) -> (r: String)
    ensures
        exists|h: Option<Seq<char>>| r@ == tilde_expanded(path@, h),
        !has_tilde_root(path@) ==> r@ == path@,
{
    let home = home_dir();
    match home {
        Some(h) => expand_tilde_with(path, Some(h.as_str())),
        None => expand_tilde_with(path, None),
    }
}

pub open spec fn opt_str(o: Option<&str>) -> Option<Seq<char>> {
    match o {
        Some(s) => Some(s@),
        None => None,
    }
}

/// The normal form of `path`, with `home` for `~` and `cwd` as the
/// directory that a relative path starts from.
pub fn normalize_with(path: &str, home: Option<&str>, cwd: &str) -> (r: String)
    ensures
        r@ == normalized(path@, opt_str(home), cwd@),
        is_absolute(cwd@) ==> is_absolute(r@),
{
    let p = to_chars(path);
    let e = expand_chars(&p, home);
    let c = cleaned_chars(&e);
    if e.len() > 0 && e[0] == '/' {
        from_chars(&c)
    } else {
        let w = to_chars(cwd);
        from_chars(&join_chars(&w, &c))
    }
}

/// The normal form of `path`, with the user's home directory for `~` and
/// `cwd` as the directory that a relative path starts from.
pub fn normalize(path: &str, cwd: &str) -> (r: String)
    ensures
        exists|h: Option<Seq<char>>| r@ == normalized(path@, h, cwd@),
{
    let home = home_dir();
    match home {
        Some(h) => normalize_with(path, Some(h.as_str()), cwd),
        None => normalize_with(path, None, cwd),
    }
}

/// The prefix that paths inside directory `dir` start with.
pub open spec fn dir_prefix(dir: Seq<char>) -> Seq<char> {
    if dir.len() > 0 && dir.last() == '/' {
        dir
    } else {
        dir + seq!['/']
    }
}

/// `p` lies inside directory `dir`: anywhere below it when `recursive`,
/// else directly in it.
pub open spec fn is_under(p: Seq<char>, dir: Seq<char>, recursive: bool) -> bool {
    let d = dir_prefix(dir);
    p.len() > d.len() && p.subrange(0, d.len() as int) == d && (recursive || !p.subrange(
        d.len() as int,
        p.len() as int,
    ).contains('/'))
}

pub(crate) fn prefix_of(dir: &Vec<char>) -> (r: Vec<char>)
    ensures
        r@ == dir_prefix(dir@),
{
    let mut r = dir.clone();
    assert(r@ =~= dir@);
    if dir.len() == 0 || dir[dir.len() - 1] != '/' {
        r.push('/');
    }
    r
}

/// Whether `p` lies inside directory `dir` (see [`is_under`]).
pub fn path_is_under(p: &str, dir: &str, recursive: bool) -> (r: bool)
    ensures
        r == is_under(p@, dir@, recursive),
{
    let pc = to_chars(p);
    let dc = to_chars(dir);
    let d = prefix_of(&dc);
    if pc.len() <= d.len() {
        return false;
    }
    let mut i: usize = 0;
    while i < d.len()
        invariant
            d@ == dir_prefix(dir@),
            pc@ == p@,
            d@.len() < pc@.len(),
            i <= d@.len(),
            pc@.subrange(0, i as int) == d@.subrange(0, i as int),
        decreases d@.len() - i,
    {
        if pc[i] != d[i] {
            assert(pc@.subrange(0, d@.len() as int)[i as int] == pc@[i as int]);
            assert(pc@.subrange(0, d@.len() as int) != d@);
            assert(dir_prefix(dir@) == d@);
            assert(!is_under(p@, dir@, recursive));
            return false;
        }
        i = i + 1;
        assert(pc@.subrange(0, i as int) =~= d@.subrange(0, i as int));
    }
    assert(d@.subrange(0, d@.len() as int) =~= d@);
    if recursive {
        return true;
    }
    let mut j: usize = d.len();
    while j < pc.len()
        invariant
            d@ == dir_prefix(dir@),
            pc@ == p@,
            !recursive,
            d@.len() <= j <= pc@.len(),
            !pc@.subrange(d@.len() as int, j as int).contains('/'),
        decreases pc@.len() - j,
    {
        if pc[j] == '/' {
            let ghost tail = pc@.subrange(d@.len() as int, pc@.len() as int);
            assert(tail[j - d@.len()] == '/');
            assert(tail.contains('/'));
            assert(dir_prefix(dir@) == d@);
            assert(!is_under(p@, dir@, recursive));
            return false;
        }
        j = j + 1;
        assert forall|k: int| 0 <= k < j - d@.len() implies pc@.subrange(d@.len() as int, j as int)[k] != '/' by {
            if k < j - 1 - d@.len() {
                assert(pc@.subrange(d@.len() as int, j as int)[k] == pc@.subrange(d@.len() as int, j - 1)[k]);
            }
        }
    }
    true
}

/// The last component of `p` once cleaned, if it has one.
pub open spec fn file_name_of(p: Seq<char>) -> Option<Seq<char>> {
    if clean_segments(p).len() > 0 {
        Some(clean_segments(p).last())
    } else {
        None
    }
}

/// The last component of the path, if it has one.
pub fn file_name(path: &str) -> (r: Option<String>)
    ensures
        match file_name_of(path@) {
            Some(n) => r is Some && r->0@ == n,
            None => r is None,
        },
{
    let p = to_chars(path);
    let segs = segments_of(&p);
    if segs.len() > 0 {
        let last = &segs[segs.len() - 1];
        assert(views(segs@).last() == last@);
        Some(from_chars(last))
    } else {
        None
    }
}

/// `b` appended to `a` as a path (see [`join_path`]).
pub fn join(a: &str, b: &str) -> (r: String)
    ensures
        r@ == join_path(a@, b@),
{
    let ac = to_chars(a);
    let bc = to_chars(b);
    from_chars(&join_chars(&ac, &bc))
}

} // verus!
