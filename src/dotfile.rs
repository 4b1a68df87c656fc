//! The record of one tracked file and its lifecycle status.
use vstd::prelude::*;

verus! {

/// Where a tracked file stands in its lifecycle.
#[derive(Debug, Clone, Copy, PartialEq, Eq, Structural)]
pub enum DotFileStatus {
    /// The managed folder holds a symlink to the untouched original.
    Staged,
    /// The original location is a symlink into the managed folder.
    Linked,
    /// The original was restored; the managed copy is kept.
    Unlinked,
}

/// A tracked file as seen by callers: where it lives and its status.
#[derive(Debug, Clone)]
pub struct DotFile {
    pub source: String,
    pub target: String,
    pub profile: Option<String>,
    pub status: DotFileStatus,
}

/// The mathematical value of a [`DotFile`].
pub struct DotFileView {
    pub source: Seq<char>,
    pub target: Seq<char>,
    pub profile: Option<Seq<char>>,
    pub status: DotFileStatus,
}

pub open spec fn opt_view(o: Option<String>) -> Option<Seq<char>> {
    match o {
        Some(s) => Some(s@),
        None => None,
    }
}

impl View for DotFile {
    type V = DotFileView;

    open spec fn view(&self) -> DotFileView {
        DotFileView {
            source: self.source@,
            target: self.target@,
            profile: opt_view(self.profile),
            status: self.status,
        }
    }
}

impl DotFile {
    /// A freshly staged record.
    pub fn new(source: String, target: String, profile: Option<String>) -> (r: Self)
        ensures
            r.source == source,
            r.target == target,
            r.profile == profile,
            r.status == DotFileStatus::Staged,
    {
        DotFile { source, target, profile, status: DotFileStatus::Staged }
    }

    /// A record with the given status.
    pub fn with_status(
        source: String,
        target: String,
        profile: Option<String>,
        status: DotFileStatus,
    ) -> (r: Self)
        ensures
            r.source == source,
            r.target == target,
            r.profile == profile,
            r.status == status,
    {
        DotFile { source, target, profile, status }
    }

    pub fn set_status(&mut self, status: DotFileStatus)
        ensures
            final(self).status == status,
            final(self).source == old(self).source,
            final(self).target == old(self).target,
            final(self).profile == old(self).profile,
    {
        self.status = status;
    }

    pub fn is_staged(&self) -> (r: bool)
        ensures
            r == (self.status == DotFileStatus::Staged),
    {
        self.status == DotFileStatus::Staged
    }

    pub fn is_linked(&self) -> (r: bool)
        ensures
            r == (self.status == DotFileStatus::Linked),
    {
        self.status == DotFileStatus::Linked
    }

    pub fn is_unlinked(&self) -> (r: bool)
        ensures
            r == (self.status == DotFileStatus::Unlinked),
    {
        self.status == DotFileStatus::Unlinked
    }
}

} // verus!
