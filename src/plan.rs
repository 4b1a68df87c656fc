//! Filesystem steps and a model of what they do.
//!
//! Every operation of the orchestrator is planned here as a list of steps;
//! the caller performs them in order and stops at the first failure of a
//! step that must succeed. The model below gives each step its meaning on
//! an abstract filesystem, so that properties of whole plans can be proved.
use vstd::prelude::*;
use crate::path_utils::is_under;

verus! {

/// What the caller found at a path before planning.
#[derive(Debug, Clone, Copy, PartialEq, Eq, Structural)]
pub enum PathKind {
    Missing,
    /// A regular file with no content.
    EmptyFile,
    /// A regular file with content.
    File,
    Dir,
    Symlink,
}

/// One filesystem action.
#[derive(Debug)]
pub enum FsOp {
    /// Ask the user a yes/no question; a refusal is a failure.
    Confirm(String),
    /// Ask the user to type the given text; anything else is a failure.
    ConfirmText(String, String),
    /// Remove the file or symlink at the path.
    RemoveFile(String),
    /// Rename the first path to the second.
    Rename(String, String),
    /// Copy the bytes of the first path to the second.
    Copy(String, String),
    /// Fail unless both paths hold files of the same size.
    CheckSameSize(String, String),
    /// Fail if anything exists at the path.
    CheckAbsent(String),
    /// Create a symlink at the first path pointing to the second.
    Symlink(String, String),
    /// Create the directory and its missing parents.
    CreateDirAll(String),
    /// Create the missing parent directories of the path.
    CreateParentDirs(String),
    /// Remove every empty directory at or below the path.
    RemoveEmptyDirs(String),
}

/// A step of a plan.
#[derive(Debug)]
pub struct Step {
    pub op: FsOp,
    /// When such a step fails the rest of the plan is abandoned; the
    /// failure of another step is reported and the plan goes on.
    pub must_succeed: bool,
}

/// The mathematical value of an [`FsOp`].
pub enum Op {
    /// The question asked.
    Confirm(Seq<char>),
    /// The message shown and the text to type.
    ConfirmText(Seq<char>, Seq<char>),
    RemoveFile(Seq<char>),
    Rename(Seq<char>, Seq<char>),
    Copy(Seq<char>, Seq<char>),
    CheckSameSize(Seq<char>, Seq<char>),
    CheckAbsent(Seq<char>),
    Symlink(Seq<char>, Seq<char>),
    CreateDirAll(Seq<char>),
    CreateParentDirs(Seq<char>),
    RemoveEmptyDirs(Seq<char>),
}

impl View for FsOp {
    type V = Op;

    open spec fn view(&self) -> Op {
        match self {
            FsOp::Confirm(m) => Op::Confirm(m@),
            FsOp::ConfirmText(m, t) => Op::ConfirmText(m@, t@),
            FsOp::RemoveFile(p) => Op::RemoveFile(p@),
            FsOp::Rename(a, b) => Op::Rename(a@, b@),
            FsOp::Copy(a, b) => Op::Copy(a@, b@),
            FsOp::CheckSameSize(a, b) => Op::CheckSameSize(a@, b@),
            FsOp::CheckAbsent(p) => Op::CheckAbsent(p@),
            FsOp::Symlink(a, b) => Op::Symlink(a@, b@),
            FsOp::CreateDirAll(p) => Op::CreateDirAll(p@),
            FsOp::CreateParentDirs(p) => Op::CreateParentDirs(p@),
            FsOp::RemoveEmptyDirs(p) => Op::RemoveEmptyDirs(p@),
        }
    }
}

/// The mathematical value of a [`Step`].
pub struct StepView {
    pub op: Op,
    pub must_succeed: bool,
}

impl View for Step {
    type V = StepView;

    open spec fn view(&self) -> StepView {
        StepView { op: self.op@, must_succeed: self.must_succeed }
    }
}

pub open spec fn step_views(v: Seq<Step>) -> Seq<StepView> {
    v.map_values(|s: Step| s@)
}

pub open spec fn must(op: Op) -> StepView {
    StepView { op, must_succeed: true }
}

pub open spec fn may(op: Op) -> StepView {
    StepView { op, must_succeed: false }
}

/// What the model holds at a path.
pub enum Node {
    File(Seq<u8>),
    Link(Seq<char>),
    Dir,
}

/// The model of a filesystem: what each existing path holds.
pub type Fs = Map<Seq<char>, Node>;

/// The bytes read through a path, following one symlink.
pub open spec fn content(fs: Fs, p: Seq<char>) -> Option<Seq<u8>> {
    if !fs.contains_key(p) {
        None
    } else {
        match fs[p] {
            Node::File(c) => Some(c),
            Node::Link(q) => if fs.contains_key(q) {
                match fs[q] {
                    Node::File(c) => Some(c),
                    _ => None,
                }
            } else {
                None
            },
            Node::Dir => None,
        }
    }
}

/// What a caller observes at a path of the model.
pub open spec fn kind_of(fs: Fs, p: Seq<char>) -> PathKind {
    if !fs.contains_key(p) {
        PathKind::Missing
    } else {
        match fs[p] {
            Node::File(c) => if c.len() == 0 {
                PathKind::EmptyFile
            } else {
                PathKind::File
            },
            Node::Link(_) => PathKind::Symlink,
            Node::Dir => PathKind::Dir,
        }
    }
}

/// The effect of one action on the model, or `None` where it fails. Writes
/// through a symlink land on what it points to; the user accepts every
/// question.
pub open spec fn apply(fs: Fs, op: Op) -> Option<Fs> {
    match op {
        Op::RemoveFile(p) => if fs.contains_key(p) && !(fs[p] is Dir) {
            Some(fs.remove(p))
        } else {
            None
        },
        Op::Rename(a, b) => if fs.contains_key(a) {
            Some(fs.remove(a).insert(b, fs[a]))
        } else {
            None
        },
        Op::Copy(a, b) => match content(fs, a) {
            Some(c) => if !fs.contains_key(b) {
                Some(fs.insert(b, Node::File(c)))
            } else {
                match fs[b] {
                    Node::File(_) => Some(fs.insert(b, Node::File(c))),
                    Node::Link(q) => Some(fs.insert(q, Node::File(c))),
                    Node::Dir => None,
                }
            },
            None => None,
        },
        Op::CheckSameSize(a, b) => match (content(fs, a), content(fs, b)) {
            (Some(x), Some(y)) => if x.len() == y.len() {
                Some(fs)
            } else {
                None
            },
            _ => None,
        },
        Op::CheckAbsent(p) => if fs.contains_key(p) {
            None
        } else {
            Some(fs)
        },
        Op::Symlink(l, to) => if fs.contains_key(l) {
            None
        } else {
            Some(fs.insert(l, Node::Link(to)))
        },
        Op::CreateDirAll(p) => if !fs.contains_key(p) {
            Some(fs.insert(p, Node::Dir))
        } else if fs[p] is Dir {
            Some(fs)
        } else {
            None
        },
        Op::RemoveEmptyDirs(f) => Some(without_empty_dirs(fs, f)),
        _ => Some(fs),
    }
}

/// `p` is the folder or lies anywhere below it.
pub open spec fn at_or_below(p: Seq<char>, folder: Seq<char>) -> bool {
    p == folder || is_under(p, folder, true)
}

/// Something other than a directory lies below `p`.
pub open spec fn holds_non_dir(fs: Fs, p: Seq<char>) -> bool {
    exists|q: Seq<char>| fs.contains_key(q) && is_under(q, p, true) && !(fs[q] is Dir)
}

/// A directory at or below `folder` with no file or symlink anywhere below
/// it: it goes, once the empty directories inside it went.
pub open spec fn emptied(fs: Fs, folder: Seq<char>, p: Seq<char>) -> bool {
    fs.contains_key(p) && fs[p] is Dir && at_or_below(p, folder) && !holds_non_dir(fs, p)
}

/// The model once every directory at or below `folder` that holds only
/// (possibly nested) empty directories is removed; nothing else changes.
pub open spec fn without_empty_dirs(fs: Fs, folder: Seq<char>) -> Fs {
    Map::new(|p: Seq<char>| fs.contains_key(p) && !emptied(fs, folder, p), |p: Seq<char>| fs[p])
}

/// The model after running the steps in order, where step `k` fails
/// whatever it is (no step is forced to fail when `k` is negative). A
/// failing step that must succeed ends the run.
pub open spec fn run_failing(fs: Fs, steps: Seq<StepView>, k: int) -> Fs
    decreases steps.len(),
{
    if steps.len() == 0 {
        fs
    } else {
        let outcome = if k == 0 {
            None
        } else {
            apply(fs, steps[0].op)
        };
        match outcome {
            Some(next) => run_failing(next, steps.drop_first(), k - 1),
            None => if steps[0].must_succeed {
                fs
            } else {
                run_failing(fs, steps.drop_first(), k - 1)
            },
        }
    }
}

/// The model after running the steps with no forced failure.
pub open spec fn run(fs: Fs, steps: Seq<StepView>) -> Fs {
    run_failing(fs, steps, -1)
}

pub(crate) fn step(op: FsOp, must_succeed: bool) -> (r: Step)
    ensures
        r@ == (StepView { op: op@, must_succeed }),
{
    Step { op, must_succeed }
}

} // verus!
