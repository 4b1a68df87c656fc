//! The symlink orchestrator: the plans that stage, link, unlink, remove,
//! delete, unstage and purge tracked files, and the registry updates that
//! follow a plan.
use vstd::prelude::*;
use crate::dotfile::DotFile;
use crate::plan::{FsOp, Op, PathKind, Step, StepView, may, must, step, step_views};
use crate::text::owned;

verus! {

/// What appends to a target path to keep an earlier file aside.
pub const BACKUP_SUFFIX: &'static str = ".bak";

/// The text a user types to confirm a deletion.
pub const DELETE_CONFIRMATION: &'static str = "DELETE";

/// Why an operation on a file did not go through.
#[derive(Debug, Clone, Copy, PartialEq, Eq, Structural)]
pub enum OpError {
    /// A source, target or folder is missing.
    NotFound,
    /// The target is already taken, on disk or in the registry.
    AlreadyExists,
    /// The copy made while linking differs in size from the original.
    ValidationFailed,
    /// No managed folder is registered.
    PreconditionFailed,
    /// The filesystem or the registry store failed.
    IoFailure,
    /// The user did not confirm.
    UserDeclined,
}

/// Where an earlier file at the target is kept.
pub open spec fn backup_path(target: Seq<char>) -> Seq<char> {
    target + BACKUP_SUFFIX@
}

/// The steps that stage a source at a target: a symlink at the target
/// pointing to the untouched source, or an empty directory for a
/// directory staged whole.
pub open spec fn stage_steps(source: Seq<char>, source_kind: PathKind, target: Seq<char>) -> Seq<
    StepView,
> {
    if source_kind == PathKind::Dir {
        seq![must(Op::CreateDirAll(target))]
    } else {
        seq![must(Op::CreateParentDirs(target)), must(Op::Symlink(target, source))]
    }
}

/// The steps that clear the target before the copy: a symlink or an empty
/// file goes, a file with content is kept aside, never over an earlier
/// backup.
pub open spec fn clear_steps(target: Seq<char>, target_kind: PathKind) -> Seq<StepView> {
    match target_kind {
        PathKind::Symlink | PathKind::EmptyFile => seq![must(Op::RemoveFile(target))],
        PathKind::File => seq![
            must(Op::CheckAbsent(backup_path(target))),
            must(Op::Rename(target, backup_path(target))),
        ],
        _ => seq![],
    }
}

/// The steps that link a staged file: copy it into the managed folder,
/// check the copy, and only then replace the original by a symlink to the
/// copy. A directory needs no step.
pub open spec fn link_steps(
    source: Seq<char>,
    target: Seq<char>,
    source_kind: PathKind,
    target_kind: PathKind,
) -> Seq<StepView> {
    if source_kind == PathKind::Dir {
        seq![]
    } else {
        clear_steps(target, target_kind) + seq![
            must(Op::CreateParentDirs(target)),
            must(Op::Copy(source, target)),
            must(Op::CheckSameSize(source, target)),
            must(Op::RemoveFile(source)),
            must(Op::CheckAbsent(source)),
            must(Op::Symlink(source, target)),
        ]
    }
}

/// The steps that put the managed copy back at the source, through `tmp`,
/// a path the caller found free: the copy is made there first, so that a
/// failed copy leaves the symlink (and through it the data) in place, and
/// nothing that stands at `tmp` is ever written through.
pub open spec fn restore_steps(source: Seq<char>, target: Seq<char>, tmp: Seq<char>) -> Seq<
    StepView,
> {
    seq![
        must(Op::CheckAbsent(tmp)),
        must(Op::Copy(target, tmp)),
        must(Op::RemoveFile(source)),
        must(Op::Rename(tmp, source)),
    ]
}

pub open spec fn confirm_steps(skip_confirm: bool, message: Seq<char>) -> Seq<StepView> {
    if skip_confirm {
        seq![]
    } else {
        seq![must(Op::Confirm(message))]
    }
}

pub open spec fn confirm_text_steps(skip_confirm: bool, message: Seq<char>) -> Seq<StepView> {
    if skip_confirm {
        seq![]
    } else {
        seq![must(Op::ConfirmText(message, DELETE_CONFIRMATION@))]
    }
}

/// The question asked before unlinking: it names the source.
pub open spec fn unlink_message(source: Seq<char>) -> Seq<char> {
    "This will remove the symlink at "@ + source
        + " but keep the file in the managed folder, and restore the original file there."@
}

/// The question asked before removing an untracked symlink.
pub open spec fn unlink_untracked_message(path: Seq<char>) -> Seq<char> {
    "This will remove the symlink at "@ + path + " but keep the file in the managed folder."@
}

/// The question asked before deleting a managed copy: it names the source.
pub open spec fn remove_message(source: Seq<char>) -> Seq<char> {
    "This will delete the managed copy of "@ + source
        + ", keep the original file and forget its tracking record."@
}

/// The warning shown before deleting a tracked file everywhere.
pub open spec fn delete_message(source: Seq<char>) -> Seq<char> {
    "WARNING: This will PERMANENTLY DELETE "@ + source
        + " and its managed copy, and forget its tracking record. This cannot be undone."@
}

/// The warning shown before deleting an untracked file.
pub open spec fn delete_untracked_message(path: Seq<char>) -> Seq<char> {
    "WARNING: This will PERMANENTLY DELETE "@ + path + ". This cannot be undone."@
}

/// The steps that unlink a tracked file.
pub open spec fn unlink_steps(
    source: Seq<char>,
    target: Seq<char>,
    tmp: Seq<char>,
    skip_confirm: bool,
) -> Seq<StepView> {
    confirm_steps(skip_confirm, unlink_message(source)) + restore_steps(source, target, tmp)
}

/// The steps that unlink a symlink that no record tracks.
pub open spec fn unlink_untracked_steps(
    path: Seq<char>,
    kind: PathKind,
    skip_confirm: bool,
) -> Seq<StepView> {
    if kind == PathKind::Symlink {
        confirm_steps(skip_confirm, unlink_untracked_message(path)) + seq![
            must(Op::RemoveFile(path)),
        ]
    } else {
        seq![]
    }
}

/// The steps that delete the managed copy and keep the original.
pub open spec fn remove_steps(
    source: Seq<char>,
    target: Seq<char>,
    source_kind: PathKind,
    tmp: Seq<char>,
    skip_confirm: bool,
) -> Seq<StepView> {
    confirm_steps(skip_confirm, remove_message(source)) + (if source_kind == PathKind::Symlink {
        restore_steps(source, target, tmp)
    } else {
        seq![]
    }) + seq![must(Op::RemoveFile(target))]
}

/// The steps that delete a tracked file everywhere: whatever stands at the
/// source goes (a failure there is reported and the deletion goes on),
/// then the managed copy.
pub open spec fn delete_steps(source: Seq<char>, target: Seq<char>, skip_confirm: bool) -> Seq<
    StepView,
> {
    confirm_text_steps(skip_confirm, delete_message(source)) + seq![
        may(Op::RemoveFile(source)),
        must(Op::RemoveFile(target)),
    ]
}

/// The steps that delete a file that no record tracks.
pub open spec fn delete_untracked_steps(path: Seq<char>, skip_confirm: bool) -> Seq<StepView> {
    confirm_text_steps(skip_confirm, delete_untracked_message(path)) + seq![
        must(Op::RemoveFile(path)),
    ]
}

/// The steps that purge one record: a source that is a symlink to the
/// managed copy is restored first (and if that fails the copy stays), then
/// the managed copy goes.
pub open spec fn purge_steps(
    source: Seq<char>,
    target: Seq<char>,
    source_link: Option<Seq<char>>,
    tmp: Seq<char>,
) -> Seq<StepView> {
    (if source_link == Some(target) {
        restore_steps(source, target, tmp)
    } else {
        seq![]
    }) + seq![may(Op::RemoveFile(target))]
}

/// The step that unstages one record: its staging symlink goes.
pub open spec fn unstage_steps(target: Seq<char>) -> Seq<StepView> {
    seq![may(Op::RemoveFile(target))]
}

/// The step that clears up after a purge: the empty directories at or
/// below the folder go.
pub open spec fn cleanup_steps(folder: Seq<char>) -> Seq<StepView> {
    seq![may(Op::RemoveEmptyDirs(folder))]
}

fn with_suffix(s: &String, suffix: &str) -> (r: String)
    ensures
        r@ == s@ + suffix@,
{
    let mut r = s.clone();
    r.append(suffix);
    r
}

fn text3(a: &str, b: &str, c: &str) -> (r: String)
    ensures
        r@ == a@ + b@ + c@,
{
    let mut r = owned(a);
    r.append(b);
    r.append(c);
    r
}

fn push_confirm(steps: &mut Vec<Step>, skip_confirm: bool, message: String)
    ensures
        step_views(final(steps)@) == step_views(old(steps)@) + confirm_steps(
            skip_confirm,
            message@,
        ),
{
    let ghost before = step_views(steps@);
    let ghost m = message@;
    if !skip_confirm {
        steps.push(step(FsOp::Confirm(message), true));
    }
    assert(step_views(steps@) =~= before + confirm_steps(skip_confirm, m));
}

fn push_confirm_text(steps: &mut Vec<Step>, skip_confirm: bool, message: String)
    ensures
        step_views(final(steps)@) == step_views(old(steps)@) + confirm_text_steps(
            skip_confirm,
            message@,
        ),
{
    let ghost before = step_views(steps@);
    let ghost m = message@;
    if !skip_confirm {
        steps.push(step(FsOp::ConfirmText(message, owned(DELETE_CONFIRMATION)), true));
    }
    assert(step_views(steps@) =~= before + confirm_text_steps(skip_confirm, m));
}

fn push_step(steps: &mut Vec<Step>, op: FsOp, must_succeed: bool)
    ensures
        step_views(final(steps)@) == step_views(old(steps)@).push(
            StepView { op: op@, must_succeed },
        ),
{
    let ghost before = step_views(steps@);
    let ghost v = op@;
    steps.push(step(op, must_succeed));
    assert(step_views(steps@) =~= before.push(StepView { op: v, must_succeed }));
}

fn push_restore(steps: &mut Vec<Step>, source: &String, target: &String, tmp: &String)
    ensures
        step_views(final(steps)@) == step_views(old(steps)@) + restore_steps(
            source@,
            target@,
            tmp@,
        ),
{
    let ghost before = step_views(steps@);
    push_step(steps, FsOp::CheckAbsent(tmp.clone()), true);
    push_step(steps, FsOp::Copy(target.clone(), tmp.clone()), true);
    push_step(steps, FsOp::RemoveFile(source.clone()), true);
    push_step(steps, FsOp::Rename(tmp.clone(), source.clone()), true);
    assert(step_views(steps@) =~= before + restore_steps(source@, target@, tmp@));
}

/// Plans staging `source` (already normalised) at `target`. It fails with
/// `NotFound` when the source is missing and with `AlreadyExists` when
/// something stands at the target or an active record claims it; the
/// caller then records the file with [`crate::config::Config::stage_dotfile`].
pub fn plan_stage(
    config: &crate::config::Config,
    source: &String,
    source_kind: PathKind,
    target: &String,
    target_kind: PathKind,
) -> (r: Result<Vec<Step>, OpError>)
    ensures
        source_kind == PathKind::Missing ==> r == Err::<Vec<Step>, OpError>(OpError::NotFound),
        source_kind != PathKind::Missing && (target_kind != PathKind::Missing
            || crate::registry::target_taken(config.rows(), target@)) ==> r == Err::<
            Vec<Step>,
            OpError,
        >(OpError::AlreadyExists),
        r is Ok ==> step_views(r->Ok_0@) == stage_steps(source@, source_kind, target@),
        r is Ok <==> (source_kind != PathKind::Missing && target_kind == PathKind::Missing
            && !crate::registry::target_taken(config.rows(), target@)),
{
    if source_kind == PathKind::Missing {
        return Err(OpError::NotFound);
    }
    if target_kind != PathKind::Missing {
        return Err(OpError::AlreadyExists);
    }
    let claimed = config.find_dotfile_by_target(target.as_str());
    if claimed.is_some() {
        return Err(OpError::AlreadyExists);
    }
    proof {
        if crate::registry::target_taken(config.rows(), target@) {
            let i = choose|i: int|
                0 <= i < config.rows().len() && config.rows()[i].active && config.rows()[i].target
                    == target@;
            assert(crate::registry::selects(
                crate::registry::Query::ActiveTarget(target@),
                config.rows()[i],
            ));
        }
    }
    let mut steps: Vec<Step> = Vec::new();
    assert(step_views(steps@) =~= seq![]);
    if source_kind == PathKind::Dir {
        push_step(&mut steps, FsOp::CreateDirAll(target.clone()), true);
    } else {
        push_step(&mut steps, FsOp::CreateParentDirs(target.clone()), true);
        push_step(&mut steps, FsOp::Symlink(target.clone(), source.clone()), true);
    }
    assert(step_views(steps@) =~= stage_steps(source@, source_kind, target@));
    Ok(steps)
}

/// Plans linking a staged record, from what stands at its source and at
/// its target.
pub fn plan_link(record: &DotFile, source_kind: PathKind, target_kind: PathKind) -> (r: Vec<Step>)
    ensures
        step_views(r@) == link_steps(record@.source, record@.target, source_kind, target_kind),
{
    let mut steps: Vec<Step> = Vec::new();
    assert(step_views(steps@) =~= seq![]);
    if source_kind == PathKind::Dir {
        return steps;
    }
    let source = &record.source;
    let target = &record.target;
    match target_kind {
        PathKind::Symlink | PathKind::EmptyFile => {
            push_step(&mut steps, FsOp::RemoveFile(target.clone()), true);
        },
        PathKind::File => {
            let bak = with_suffix(target, BACKUP_SUFFIX);
            push_step(&mut steps, FsOp::CheckAbsent(bak.clone()), true);
            push_step(&mut steps, FsOp::Rename(target.clone(), bak), true);
        },
        _ => {},
    }
    assert(step_views(steps@) =~= clear_steps(target@, target_kind));
    push_step(&mut steps, FsOp::CreateParentDirs(target.clone()), true);
    push_step(&mut steps, FsOp::Copy(source.clone(), target.clone()), true);
    push_step(&mut steps, FsOp::CheckSameSize(source.clone(), target.clone()), true);
    push_step(&mut steps, FsOp::RemoveFile(source.clone()), true);
    push_step(&mut steps, FsOp::CheckAbsent(source.clone()), true);
    push_step(&mut steps, FsOp::Symlink(source.clone(), target.clone()), true);
    assert(step_views(steps@) =~= link_steps(source@, target@, source_kind, target_kind));
    steps
}

/// Plans unlinking a tracked record, restoring through `tmp`, a path the
/// caller found free.
pub fn plan_unlink(record: &DotFile, tmp: &String, skip_confirm: bool) -> (r: Vec<Step>)
    ensures
        step_views(r@) == unlink_steps(record@.source, record@.target, tmp@, skip_confirm),
{
    let mut steps: Vec<Step> = Vec::new();
    assert(step_views(steps@) =~= seq![]);
    let message = text3(
        "This will remove the symlink at ",
        record.source.as_str(),
        " but keep the file in the managed folder, and restore the original file there.",
    );
    push_confirm(&mut steps, skip_confirm, message);
    push_restore(&mut steps, &record.source, &record.target, tmp);
    assert(step_views(steps@) =~= unlink_steps(record@.source, record@.target, tmp@, skip_confirm));
    steps
}

/// Plans unlinking a path that no record tracks: only a symlink is
/// removed.
pub fn plan_unlink_untracked(path: &String, kind: PathKind, skip_confirm: bool) -> (r: Vec<Step>)
    ensures
        step_views(r@) == unlink_untracked_steps(path@, kind, skip_confirm),
{
    let mut steps: Vec<Step> = Vec::new();
    assert(step_views(steps@) =~= seq![]);
    if kind == PathKind::Symlink {
        let message = text3(
            "This will remove the symlink at ",
            path.as_str(),
            " but keep the file in the managed folder.",
        );
        push_confirm(&mut steps, skip_confirm, message);
        push_step(&mut steps, FsOp::RemoveFile(path.clone()), true);
    }
    assert(step_views(steps@) =~= unlink_untracked_steps(path@, kind, skip_confirm));
    steps
}

/// Plans deleting the managed copy of a record while keeping the
/// original, restoring a linked source through `tmp`, a path the caller
/// found free.
pub fn plan_remove(record: &DotFile, source_kind: PathKind, tmp: &String, skip_confirm: bool) -> (r:
    Vec<Step>)
    ensures
        step_views(r@) == remove_steps(
            record@.source,
            record@.target,
            source_kind,
            tmp@,
            skip_confirm,
        ),
{
    let mut steps: Vec<Step> = Vec::new();
    assert(step_views(steps@) =~= seq![]);
    let message = text3(
        "This will delete the managed copy of ",
        record.source.as_str(),
        ", keep the original file and forget its tracking record.",
    );
    push_confirm(&mut steps, skip_confirm, message);
    if source_kind == PathKind::Symlink {
        push_restore(&mut steps, &record.source, &record.target, tmp);
    }
    push_step(&mut steps, FsOp::RemoveFile(record.target.clone()), true);
    assert(step_views(steps@) =~= remove_steps(
        record@.source,
        record@.target,
        source_kind,
        tmp@,
        skip_confirm,
    ));
    steps
}

/// Plans deleting a record's file everywhere.
pub fn plan_delete(record: &DotFile, skip_confirm: bool) -> (r: Vec<Step>)
    ensures
        step_views(r@) == delete_steps(record@.source, record@.target, skip_confirm),
{
    let mut steps: Vec<Step> = Vec::new();
    assert(step_views(steps@) =~= seq![]);
    let message = text3(
        "WARNING: This will PERMANENTLY DELETE ",
        record.source.as_str(),
        " and its managed copy, and forget its tracking record. This cannot be undone.",
    );
    push_confirm_text(&mut steps, skip_confirm, message);
    push_step(&mut steps, FsOp::RemoveFile(record.source.clone()), false);
    push_step(&mut steps, FsOp::RemoveFile(record.target.clone()), true);
    assert(step_views(steps@) =~= delete_steps(record@.source, record@.target, skip_confirm));
    steps
}

/// Plans deleting a file that no record tracks.
pub fn plan_delete_untracked(path: &String, skip_confirm: bool) -> (r: Vec<Step>)
    ensures
        step_views(r@) == delete_untracked_steps(path@, skip_confirm),
{
    let mut steps: Vec<Step> = Vec::new();
    assert(step_views(steps@) =~= seq![]);
    let message = text3(
        "WARNING: This will PERMANENTLY DELETE ",
        path.as_str(),
        ". This cannot be undone.",
    );
    push_confirm_text(&mut steps, skip_confirm, message);
    push_step(&mut steps, FsOp::RemoveFile(path.clone()), true);
    assert(step_views(steps@) =~= delete_untracked_steps(path@, skip_confirm));
    steps
}

/// Plans purging one record, given where its source points when it is a
/// symlink, restoring through `tmp`, a path the caller found free.
pub fn plan_purge_record(record: &DotFile, source_link: &Option<String>, tmp: &String) -> (r: Vec<
    Step,
>)
    ensures
        step_views(r@) == purge_steps(
            record@.source,
            record@.target,
            match source_link { Some(l) => Some(l@), None => None },
            tmp@,
        ),
{
    let mut steps: Vec<Step> = Vec::new();
    assert(step_views(steps@) =~= seq![]);
    let points_home = match source_link {
        Some(l) => *l == record.target,
        None => false,
    };
    if points_home {
        push_restore(&mut steps, &record.source, &record.target, tmp);
    }
    push_step(&mut steps, FsOp::RemoveFile(record.target.clone()), false);
    assert(step_views(steps@) =~= purge_steps(
        record@.source,
        record@.target,
        match source_link { Some(l) => Some(l@), None => None },
        tmp@,
    ));
    steps
}

/// Plans unstaging one record.
pub fn plan_unstage(record: &DotFile) -> (r: Vec<Step>)
    ensures
        step_views(r@) == unstage_steps(record@.target),
{
    let mut steps: Vec<Step> = Vec::new();
    assert(step_views(steps@) =~= seq![]);
    push_step(&mut steps, FsOp::RemoveFile(record.target.clone()), false);
    assert(step_views(steps@) =~= unstage_steps(record@.target));
    steps
}

/// Plans the clean-up after a purge: the empty directories at or below
/// the folder go (see `crate::plan::without_empty_dirs`).
pub fn plan_purge_cleanup(folder: &String) -> (r: Vec<Step>)
    ensures
        step_views(r@) == cleanup_steps(folder@),
{
    let mut steps: Vec<Step> = Vec::new();
    assert(step_views(steps@) =~= seq![]);
    push_step(&mut steps, FsOp::RemoveEmptyDirs(folder.clone()), false);
    assert(step_views(steps@) =~= cleanup_steps(folder@));
    steps
}

/// The error that the failure of a step stands for.
pub fn failure_of(op: &FsOp) -> (e: OpError)
    ensures
        e == match op@ {
            Op::Confirm(_) | Op::ConfirmText(_, _) => OpError::UserDeclined,
            Op::CheckSameSize(_, _) => OpError::ValidationFailed,
            Op::CheckAbsent(_) => OpError::AlreadyExists,
            _ => OpError::IoFailure,
        },
{
    match op {
        FsOp::Confirm(_) | FsOp::ConfirmText(_, _) => OpError::UserDeclined,
        FsOp::CheckSameSize(_, _) => OpError::ValidationFailed,
        FsOp::CheckAbsent(_) => OpError::AlreadyExists,
        _ => OpError::IoFailure,
    }
}

} // verus!
