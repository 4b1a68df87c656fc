//! Properties of whole plans, proved on the filesystem model.
use vstd::prelude::*;
use crate::plan::{
    Fs, Node, Op, PathKind, StepView, emptied, kind_of, must, run, run_failing, without_empty_dirs,
};
use crate::orchestrator::{
    backup_path, cleanup_steps, clear_steps, link_steps, purge_steps, restore_steps, stage_steps,
    unlink_message, unlink_steps,
};

verus! {

/// When the size check that follows the copy fails while linking, the
/// original at the source is still there, untouched: the plan removes the
/// original only after a validated copy exists.
pub proof fn lemma_failed_validation_keeps_source(fs: Fs, source: Seq<char>, target: Seq<char>)
    requires
        source != target,
        source != backup_path(target),
        kind_of(fs, source) != PathKind::Dir,
    ensures
        ({
            let steps = link_steps(source, target, kind_of(fs, source), kind_of(fs, target));
            let k = clear_steps(target, kind_of(fs, target)).len() + 2;
            let after = run_failing(fs, steps, k as int);
            &&& steps[k as int].op == Op::CheckSameSize(source, target)
            &&& after.contains_key(source) == fs.contains_key(source)
            &&& fs.contains_key(source) ==> after[source] == fs[source]
        }),
{
    let tk = kind_of(fs, target);
    let sk = kind_of(fs, source);
    let clear = clear_steps(target, tk);
    let tail = seq![
        must(Op::CreateParentDirs(target)),
        must(Op::Copy(source, target)),
        must(Op::CheckSameSize(source, target)),
        must(Op::RemoveFile(source)),
        must(Op::CheckAbsent(source)),
        must(Op::Symlink(source, target)),
    ];
    let steps = link_steps(source, target, sk, tk);
    assert(steps == clear + tail);
    let k = clear.len() + 2;
    assert(steps[k as int] == tail[2]);
    // From the state after the clearing step, the run keeps the source.
    if clear.len() == 0 {
        assert(steps =~= tail);
        assert(!(fs.contains_key(target) && fs[target] is Link));
        lemma_copy_keeps_source(fs, fs, source, target);
    } else if clear.len() == 1 {
        assert(steps.drop_first() =~= tail);
        assert(k == 3);
        match crate::plan::apply(fs, steps[0].op) {
            Some(g) => {
                assert(run_failing(fs, steps, 3) == run_failing(g, tail, 2));
                assert(g.contains_key(source) == fs.contains_key(source));
                assert(fs.contains_key(source) ==> g[source] == fs[source]);
                lemma_copy_keeps_source(fs, g, source, target);
            },
            None => {
                assert(run_failing(fs, steps, 3) == fs);
            },
        }
    } else {
        let s1 = steps.drop_first();
        assert(s1.drop_first() =~= tail);
        assert(k == 4);
        assert(tk == PathKind::File);
        match crate::plan::apply(fs, steps[0].op) {
            Some(g0) => {
                assert(g0 == fs);
                assert(run_failing(fs, steps, 4) == run_failing(fs, s1, 3));
                match crate::plan::apply(fs, s1[0].op) {
                    Some(g) => {
                        assert(run_failing(fs, s1, 3) == run_failing(g, tail, 2));
                        assert(g.contains_key(source) == fs.contains_key(source));
                        assert(fs.contains_key(source) ==> g[source] == fs[source]);
                        assert(!(g.contains_key(target) && g[target] is Link));
                        lemma_copy_keeps_source(fs, g, source, target);
                    },
                    None => {
                        assert(run_failing(fs, s1, 3) == fs);
                    },
                }
            },
            None => {
                assert(run_failing(fs, steps, 4) == fs);
            },
        }
    }
}

/// From a state that agrees with `fs` at the source and has no symlink at
/// the target, the linking steps up to the size check keep the source.
proof fn lemma_copy_keeps_source(fs: Fs, g: Fs, source: Seq<char>, target: Seq<char>)
    requires
        source != target,
        g.contains_key(source) == fs.contains_key(source),
        fs.contains_key(source) ==> g[source] == fs[source],
        !(g.contains_key(target) && g[target] is Link),
    ensures
        ({
            let tail = seq![
                must(Op::CreateParentDirs(target)),
                must(Op::Copy(source, target)),
                must(Op::CheckSameSize(source, target)),
                must(Op::RemoveFile(source)),
                must(Op::CheckAbsent(source)),
                must(Op::Symlink(source, target)),
            ];
            let a = run_failing(g, tail, 2);
            &&& a.contains_key(source) == fs.contains_key(source)
            &&& fs.contains_key(source) ==> a[source] == fs[source]
        }),
{
    let tail = seq![
        must(Op::CreateParentDirs(target)),
        must(Op::Copy(source, target)),
        must(Op::CheckSameSize(source, target)),
        must(Op::RemoveFile(source)),
        must(Op::CheckAbsent(source)),
        must(Op::Symlink(source, target)),
    ];
    let t1 = tail.drop_first();
    let t2 = t1.drop_first();
    assert(t1 =~= tail.subrange(1, 6));
    assert(t2 =~= tail.subrange(2, 6));
    assert(run_failing(g, tail, 2) == run_failing(g, t1, 1));
    match crate::plan::apply(g, Op::Copy(source, target)) {
        Some(n) => {
            assert(n.contains_key(source) == g.contains_key(source));
            assert(g.contains_key(source) ==> n[source] == g[source]);
            assert(run_failing(g, t1, 1) == run_failing(n, t2, 0));
        },
        None => {
            assert(run_failing(g, t1, 1) == g);
        },
    }
}

/// With no forced failure, the index passed does not matter.
proof fn lemma_no_forced_failure(fs: Fs, steps: Seq<StepView>, k: int)
    requires
        k < 0,
    ensures
        run_failing(fs, steps, k) == run(fs, steps),
    decreases steps.len(),
{
    if steps.len() > 0 {
        let rest = steps.drop_first();
        match crate::plan::apply(fs, steps[0].op) {
            Some(n) => {
                lemma_no_forced_failure(n, rest, k - 1);
                lemma_no_forced_failure(n, rest, -2);
            },
            None => {
                lemma_no_forced_failure(fs, rest, k - 1);
                lemma_no_forced_failure(fs, rest, -2);
            },
        }
    }
}

/// Running a plan whose first step goes through is running the rest from
/// the state that step leaves.
proof fn lemma_run_first(fs: Fs, steps: Seq<StepView>, next: Fs)
    requires
        steps.len() > 0,
        crate::plan::apply(fs, steps[0].op) == Some(next),
    ensures
        run(fs, steps) == run(next, steps.drop_first()),
{
    lemma_no_forced_failure(next, steps.drop_first(), -2);
}

/// Staging, linking and then unlinking a file gives back, at the source,
/// the very file that was there before staging; while it is linked the
/// source is a symlink to the managed copy, which holds the same bytes.
/// The unlink restores through `tmp`, a path that is free when it runs.
pub proof fn lemma_round_trip(
    fs: Fs,
    source: Seq<char>,
    target: Seq<char>,
    tmp: Seq<char>,
    skip_confirm: bool,
)
    requires
        fs.contains_key(source),
        fs[source] is File,
        !fs.contains_key(target),
        !fs.contains_key(tmp),
        source != target,
        tmp != target,
    ensures
        ({
            let staged = run(fs, stage_steps(source, kind_of(fs, source), target));
            let linked = run(
                staged,
                link_steps(source, target, kind_of(staged, source), kind_of(staged, target)),
            );
            let restored = run(linked, unlink_steps(source, target, tmp, skip_confirm));
            &&& staged.contains_key(target) && staged[target] == Node::Link(source)
            &&& staged[source] == fs[source]
            &&& linked.contains_key(source) && linked[source] == Node::Link(target)
            &&& linked.contains_key(target) && linked[target] == fs[source]
            &&& restored.contains_key(source) && restored[source] == fs[source]
            &&& !restored.contains_key(tmp)
        }),
{
    let c = fs[source]->File_0;
    let sk = kind_of(fs, source);
    // staging
    let st = stage_steps(source, sk, target);
    let fs1 = fs.insert(target, Node::Link(source));
    lemma_run_first(fs, st, fs);
    lemma_run_first(fs, st.drop_first(), fs1);
    assert(st.drop_first().drop_first() =~= seq![]);
    let staged = run(fs, st);
    assert(staged == fs1);
    assert(kind_of(fs1, source) == sk);
    assert(kind_of(fs1, target) == PathKind::Symlink);
    // linking
    let ls = link_steps(source, target, sk, PathKind::Symlink);
    let fs2 = fs1.remove(target);
    let fs3 = fs2.insert(target, Node::File(c));
    let fs4 = fs3.remove(source);
    let fs5 = fs4.insert(source, Node::Link(target));
    let l1 = ls.drop_first();
    let l2 = l1.drop_first();
    let l3 = l2.drop_first();
    let l4 = l3.drop_first();
    let l5 = l4.drop_first();
    let l6 = l5.drop_first();
    assert(ls[0] == must(Op::RemoveFile(target)));
    lemma_run_first(fs1, ls, fs2);
    assert(l1[0] == must(Op::CreateParentDirs(target)));
    lemma_run_first(fs2, l1, fs2);
    assert(l2[0] == must(Op::Copy(source, target)));
    assert(crate::plan::content(fs2, source) == Some(c));
    lemma_run_first(fs2, l2, fs3);
    assert(l3[0] == must(Op::CheckSameSize(source, target)));
    lemma_run_first(fs3, l3, fs3);
    assert(l4[0] == must(Op::RemoveFile(source)));
    lemma_run_first(fs3, l4, fs4);
    assert(l5[0] == must(Op::CheckAbsent(source)));
    lemma_run_first(fs4, l5, fs4);
    assert(l6[0] == must(Op::Symlink(source, target)));
    lemma_run_first(fs4, l6, fs5);
    assert(l6.drop_first() =~= seq![]);
    let linked = run(fs1, ls);
    assert(linked == fs5);
    // unlinking
    let us = unlink_steps(source, target, tmp, skip_confirm);
    let rs = restore_steps(source, target, tmp);
    assert(!fs5.contains_key(tmp));
    if !skip_confirm {
        assert(us[0] == must(Op::Confirm(unlink_message(source))));
        assert(us.drop_first() =~= rs);
        lemma_run_first(fs5, us, fs5);
    } else {
        assert(us =~= rs);
    }
    lemma_restore(fs5, source, target, tmp, c);
}

/// The restore steps put the managed copy's bytes back at the source and
/// leave the temporary path free.
proof fn lemma_restore(fs: Fs, source: Seq<char>, target: Seq<char>, tmp: Seq<char>, c: Seq<u8>)
    requires
        fs.contains_key(source),
        fs.contains_key(target),
        fs[target] == Node::File(c),
        !fs.contains_key(tmp),
        fs[source] is Link,
        source != target,
    ensures
        ({
            let r = run(fs, restore_steps(source, target, tmp));
            &&& r.contains_key(source) && r[source] == Node::File(c)
            &&& !r.contains_key(tmp)
            &&& r == fs.insert(source, Node::File(c))
        }),
{
    let rs = restore_steps(source, target, tmp);
    let r1 = rs.drop_first();
    let r2 = r1.drop_first();
    let r3 = r2.drop_first();
    let f1 = fs.insert(tmp, Node::File(c));
    let f2 = f1.remove(source);
    let f3 = f2.remove(tmp).insert(source, Node::File(c));
    assert(crate::plan::content(fs, target) == Some(c));
    lemma_run_first(fs, rs, fs);
    lemma_run_first(fs, r1, f1);
    lemma_run_first(f1, r2, f2);
    lemma_run_first(f2, r3, f3);
    assert(r3.drop_first() =~= seq![]);
    assert(f3 =~= fs.insert(source, Node::File(c)));
}

/// Purging a linked record puts the managed copy's bytes back at the
/// source as a regular file and takes the copy out of the managed folder,
/// restoring through `tmp`, a path that is free when it runs.
pub proof fn lemma_purge_restores_linked(fs: Fs, source: Seq<char>, target: Seq<char>, tmp: Seq<char>)
    requires
        fs.contains_key(source),
        fs[source] == Node::Link(target),
        fs.contains_key(target),
        fs[target] is File,
        !fs.contains_key(tmp),
        source != target,
    ensures
        ({
            let after = run(fs, purge_steps(source, target, Some(target), tmp));
            &&& after.contains_key(source) && after[source] == fs[target]
            &&& !after.contains_key(target)
            &&& !after.contains_key(tmp)
        }),
{
    let c = fs[target]->File_0;
    let ps = purge_steps(source, target, Some(target), tmp);
    let p1 = ps.drop_first();
    let p2 = p1.drop_first();
    let p3 = p2.drop_first();
    let p4 = p3.drop_first();
    let f1 = fs.insert(tmp, Node::File(c));
    let f2 = f1.remove(source);
    let f3 = f2.remove(tmp).insert(source, Node::File(c));
    let f4 = f3.remove(target);
    assert(crate::plan::content(fs, target) == Some(c));
    assert(ps[0] == must(Op::CheckAbsent(tmp)));
    lemma_run_first(fs, ps, fs);
    assert(p1[0] == must(Op::Copy(target, tmp)));
    lemma_run_first(fs, p1, f1);
    assert(p2[0] == must(Op::RemoveFile(source)));
    lemma_run_first(f1, p2, f2);
    assert(p3[0] == must(Op::Rename(tmp, source)));
    lemma_run_first(f2, p3, f3);
    assert(p4[0] == crate::plan::may(Op::RemoveFile(target)));
    lemma_run_first(f3, p4, f4);
    assert(p4.drop_first() =~= seq![]);
    assert(run(fs, ps) == f4);
}

/// The clean-up after a purge removes exactly the directories at or below
/// the folder that hold no file or symlink, however deep; every other
/// entry, and every file and symlink, stays as it was.
pub proof fn lemma_cleanup_removes_empty_dirs(fs: Fs, folder: Seq<char>)
    ensures
        ({
            let after = run(fs, cleanup_steps(folder));
            &&& after == without_empty_dirs(fs, folder)
            &&& forall|p: Seq<char>|
                #[trigger] after.contains_key(p) == (fs.contains_key(p) && !emptied(fs, folder, p))
            &&& forall|p: Seq<char>| #[trigger] after.contains_key(p) ==> after[p] == fs[p]
            &&& forall|p: Seq<char>|
                fs.contains_key(p) && !(fs[p] is Dir) ==> #[trigger] after.contains_key(p)
        }),
{
    let cs = cleanup_steps(folder);
    let n = without_empty_dirs(fs, folder);
    lemma_run_first(fs, cs, n);
    assert(cs.drop_first() =~= seq![]);
}

} // verus!
