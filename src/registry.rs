//! The dotfile registry: every tracked file's record, with its lifecycle
//! status and its active flag, held in memory. Loading it from and saving
//! it to persistent storage is the caller's part.
use vstd::prelude::*;
use crate::dotfile::{DotFile, DotFileStatus, DotFileView, opt_view};
use crate::path_utils::{is_under, path_is_under};

verus! {

/// One row of the registry.
#[derive(Debug)]
pub struct DotFileRecord {
    pub source: String,
    pub target: String,
    pub profile: Option<String>,
    pub status: DotFileStatus,
    /// `false` once the record has been removed logically.
    pub active: bool,
}

/// The mathematical value of a [`DotFileRecord`].
pub struct RecordView {
    pub source: Seq<char>,
    pub target: Seq<char>,
    pub profile: Option<Seq<char>>,
    pub status: DotFileStatus,
    pub active: bool,
}

impl View for DotFileRecord {
    type V = RecordView;

    open spec fn view(&self) -> RecordView {
        RecordView {
            source: self.source@,
            target: self.target@,
            profile: opt_view(self.profile),
            status: self.status,
            active: self.active,
        }
    }
}

/// What a caller sees of a row.
pub open spec fn as_dotfile(r: RecordView) -> DotFileView {
    DotFileView { source: r.source, target: r.target, profile: r.profile, status: r.status }
}

pub open spec fn record_views(v: Seq<DotFileRecord>) -> Seq<RecordView> {
    v.map_values(|r: DotFileRecord| r@)
}

pub open spec fn dotfile_views(v: Seq<DotFile>) -> Seq<DotFileView> {
    v.map_values(|d: DotFile| d@)
}

/// Which rows a query or an update applies to.
pub enum Selector {
    /// Active rows, of the given profile when one is given.
    Active(Option<String>),
    /// Active staged rows, of the given profile when one is given.
    ActiveStaged(Option<String>),
    /// Active rows with this target.
    ActiveTarget(String),
    /// Active rows with this source.
    ActiveSource(String),
    /// Active rows with this source and this target.
    ActiveSourceTarget(String, String),
    /// Active rows whose target is one of these.
    ActiveTargetIn(Vec<String>),
    /// Rows, active or not, with this target.
    AnyTarget(String),
    /// Rows, active or not, whose source or target is the folder or, when
    /// recursive, lies below it.
    InFolder(String, bool),
    /// Active staged rows whose source is the directory or lies below it.
    ActiveStagedUnder(String),
    /// Active staged rows whose source or target is this path.
    ActiveStagedAt(String),
    /// Active staged rows whose target lies in this managed folder.
    ActiveStagedIn(String),
}

/// The mathematical value of a [`Selector`].
pub enum Query {
    Active(Option<Seq<char>>),
    ActiveStaged(Option<Seq<char>>),
    ActiveTarget(Seq<char>),
    ActiveSource(Seq<char>),
    ActiveSourceTarget(Seq<char>, Seq<char>),
    ActiveTargetIn(Seq<Seq<char>>),
    AnyTarget(Seq<char>),
    InFolder(Seq<char>, bool),
    ActiveStagedUnder(Seq<char>),
    ActiveStagedAt(Seq<char>),
    ActiveStagedIn(Seq<char>),
}

pub open spec fn targets_of(v: Seq<String>) -> Seq<Seq<char>> {
    v.map_values(|s: String| s@)
}

impl View for Selector {
    type V = Query;

    open spec fn view(&self) -> Query {
        match self {
            Selector::Active(p) => Query::Active(opt_view(*p)),
            Selector::ActiveStaged(p) => Query::ActiveStaged(opt_view(*p)),
            Selector::ActiveTarget(t) => Query::ActiveTarget(t@),
            Selector::ActiveSource(t) => Query::ActiveSource(t@),
            Selector::ActiveSourceTarget(s, t) => Query::ActiveSourceTarget(s@, t@),
            Selector::ActiveTargetIn(ts) => Query::ActiveTargetIn(targets_of(ts@)),
            Selector::AnyTarget(t) => Query::AnyTarget(t@),
            Selector::InFolder(f, rec) => Query::InFolder(f@, *rec),
            Selector::ActiveStagedUnder(d) => Query::ActiveStagedUnder(d@),
            Selector::ActiveStagedAt(p) => Query::ActiveStagedAt(p@),
            Selector::ActiveStagedIn(f) => Query::ActiveStagedIn(f@),
        }
    }
}

pub open spec fn profile_matches(r: RecordView, p: Option<Seq<char>>) -> bool {
    match p {
        Some(p) => r.profile == Some(p),
        None => true,
    }
}

/// `p` is the folder itself or, when `recursive`, lies anywhere below it.
pub open spec fn in_folder(p: Seq<char>, folder: Seq<char>, recursive: bool) -> bool {
    p == folder || (recursive && is_under(p, folder, true))
}

/// Whether the query applies to the row.
pub open spec fn selects(s: Query, r: RecordView) -> bool {
    match s {
        Query::Active(p) => r.active && profile_matches(r, p),
        Query::ActiveStaged(p) => r.active && r.status == DotFileStatus::Staged
            && profile_matches(r, p),
        Query::ActiveTarget(t) => r.active && r.target == t,
        Query::ActiveSource(t) => r.active && r.source == t,
        Query::ActiveSourceTarget(s, t) => r.active && r.source == s && r.target == t,
        Query::ActiveTargetIn(ts) => r.active && ts.contains(r.target),
        Query::AnyTarget(t) => r.target == t,
        Query::InFolder(f, rec) => in_folder(r.source, f, rec) || in_folder(r.target, f, rec),
        Query::ActiveStagedUnder(d) => r.active && r.status == DotFileStatus::Staged && (r.source
            == d || is_under(r.source, d, true)),
        Query::ActiveStagedAt(p) => r.active && r.status == DotFileStatus::Staged && (r.source == p
            || r.target == p),
        Query::ActiveStagedIn(f) => r.active && r.status == DotFileStatus::Staged && is_under(
            r.target,
            f,
            true,
        ),
    }
}

/// The rows that the selector picks, in order, as callers see them.
pub open spec fn select(rows: Seq<RecordView>, s: Query) -> Seq<DotFileView>
    decreases rows.len(),
{
    if rows.len() == 0 {
        seq![]
    } else {
        let prev = select(rows.drop_last(), s);
        if selects(s, rows.last()) {
            prev.push(as_dotfile(rows.last()))
        } else {
            prev
        }
    }
}

/// How many rows the selector picks.
pub open spec fn count(rows: Seq<RecordView>, s: Query) -> nat
    decreases rows.len(),
{
    if rows.len() == 0 {
        0
    } else {
        count(rows.drop_last(), s) + if selects(s, rows.last()) { 1nat } else { 0nat }
    }
}

/// A change made to each selected row.
#[derive(Clone, Copy, PartialEq, Eq, Structural)]
pub enum Change {
    SetStatus(DotFileStatus),
    Deactivate,
    DeactivateAs(DotFileStatus),
}

pub open spec fn changed(r: RecordView, c: Change) -> RecordView {
    match c {
        Change::SetStatus(st) => RecordView { status: st, ..r },
        Change::Deactivate => RecordView { active: false, ..r },
        Change::DeactivateAs(st) => RecordView { status: st, active: false, ..r },
    }
}

/// The rows with the change made to each selected one.
pub open spec fn updated(rows: Seq<RecordView>, s: Query, c: Change) -> Seq<RecordView> {
    rows.map_values(|r: RecordView| if selects(s, r) { changed(r, c) } else { r })
}

/// The rows that the selector does not pick, in order.
pub open spec fn without(rows: Seq<RecordView>, s: Query) -> Seq<RecordView>
    decreases rows.len(),
{
    if rows.len() == 0 {
        seq![]
    } else {
        let prev = without(rows.drop_last(), s);
        if selects(s, rows.last()) {
            prev
        } else {
            prev.push(rows.last())
        }
    }
}

/// Some active row has this target.
pub open spec fn target_taken(rows: Seq<RecordView>, t: Seq<char>) -> bool {
    exists|i: int| 0 <= i < rows.len() && rows[i].active && rows[i].target == t
}

/// No two active rows share a target.
pub open spec fn active_targets_unique(rows: Seq<RecordView>) -> bool {
    forall|i: int, j: int|
        0 <= i < rows.len() && 0 <= j < rows.len() && i != j && rows[i].active && rows[j].active
            ==> rows[i].target != rows[j].target
}

/// The first row that the query picks, as callers see it.
pub open spec fn first_match(rows: Seq<RecordView>, s: Query) -> Option<DotFileView>
    decreases rows.len(),
{
    if rows.len() == 0 {
        None
    } else if selects(s, rows[0]) {
        Some(as_dotfile(rows[0]))
    } else {
        first_match(rows.drop_first(), s)
    }
}

/// The first row that the selector picks, if any.
pub open spec fn first_selected(rows: Seq<RecordView>, s: Query, d: Option<DotFileView>) -> bool {
    match d {
        None => forall|i: int| 0 <= i < rows.len() ==> !selects(s, rows[i]),
        Some(d) => exists|i: int|
            0 <= i < rows.len() && selects(s, rows[i]) && d == as_dotfile(rows[i]) && forall|j: int|
                0 <= j < i ==> !selects(s, rows[j]),
    }
}

fn clone_opt(o: &Option<String>) -> (r: Option<String>)
    ensures
        opt_view(r) == opt_view(*o),
{
    match o {
        Some(s) => Some(s.clone()),
        None => None,
    }
}

fn strings_contain(v: &Vec<String>, s: &String) -> (r: bool)
    ensures
        r == targets_of(v@).contains(s@),
{
    let mut i: usize = 0;
    while i < v.len()
        invariant
            i <= v@.len(),
            forall|k: int| 0 <= k < i ==> v@[k]@ != s@,
        decreases v@.len() - i,
    {
        if v[i] == *s {
            assert(targets_of(v@)[i as int] == s@);
            return true;
        }
        i = i + 1;
    }
    false
}

impl Selector {
    /// Whether the selector applies to the row.
    pub fn applies_to(&self, r: &DotFileRecord) -> (b: bool)
        ensures
            b == selects(self@, r@),
    {
        match self {
            Selector::Active(p) => r.active && match p {
                Some(p) => match &r.profile {
                    Some(q) => *q == *p,
                    None => false,
                },
                None => true,
            },
            Selector::ActiveStaged(p) => r.active && r.status == DotFileStatus::Staged && match p {
                Some(p) => match &r.profile {
                    Some(q) => *q == *p,
                    None => false,
                },
                None => true,
            },
            Selector::ActiveTarget(t) => r.active && r.target == *t,
            Selector::ActiveSource(t) => r.active && r.source == *t,
            Selector::ActiveSourceTarget(s, t) => r.active && r.source == *s && r.target == *t,
            Selector::ActiveTargetIn(ts) => r.active && strings_contain(ts, &r.target),
            Selector::AnyTarget(t) => r.target == *t,
            Selector::InFolder(f, rec) => r.source == *f || r.target == *f || (*rec && (
            path_is_under(r.source.as_str(), f.as_str(), true) || path_is_under(
                r.target.as_str(),
                f.as_str(),
                true,
            ))),
            Selector::ActiveStagedUnder(d) => r.active && r.status == DotFileStatus::Staged && (
            r.source == *d || path_is_under(r.source.as_str(), d.as_str(), true)),
            Selector::ActiveStagedAt(p) => r.active && r.status == DotFileStatus::Staged && (
            r.source == *p || r.target == *p),
            Selector::ActiveStagedIn(f) => r.active && r.status == DotFileStatus::Staged
                && path_is_under(r.target.as_str(), f.as_str(), true),
        }
    }
}

impl DotFileRecord {
    /// The row as callers see it.
    pub fn to_dotfile(&self) -> (d: DotFile)
        ensures
            d@ == as_dotfile(self@),
    {
        DotFile {
            source: self.source.clone(),
            target: self.target.clone(),
            profile: clone_opt(&self.profile),
            status: self.status,
        }
    }

    fn duplicate(&self) -> (r: DotFileRecord)
        ensures
            r@ == self@,
    {
        DotFileRecord {
            source: self.source.clone(),
            target: self.target.clone(),
            profile: clone_opt(&self.profile),
            status: self.status,
            active: self.active,
        }
    }

    fn with_change(&self, c: Change) -> (r: DotFileRecord)
        ensures
            r@ == changed(self@, c),
    {
        let mut r = self.duplicate();
        match c {
            Change::SetStatus(st) => {
                r.status = st;
            },
            Change::Deactivate => {
                r.active = false;
            },
            Change::DeactivateAs(st) => {
                r.status = st;
                r.active = false;
            },
        }
        r
    }
}

/// The rows of `rows` that `s` picks, as callers see them.
pub fn select_rows(rows: &Vec<DotFileRecord>, s: &Selector) -> (r: Vec<DotFile>)
    ensures
        dotfile_views(r@) == select(record_views(rows@), s@),
{
    let mut out: Vec<DotFile> = Vec::new();
    let mut i: usize = 0;
    while i < rows.len()
        invariant
            i <= rows@.len(),
            dotfile_views(out@) == select(record_views(rows@).subrange(0, i as int), s@),
        decreases rows@.len() - i,
    {
        let ghost before = record_views(rows@).subrange(0, i as int + 1);
        assert(before.drop_last() =~= record_views(rows@).subrange(0, i as int));
        if s.applies_to(&rows[i]) {
            let d = rows[i].to_dotfile();
            out.push(d);
        }
        i = i + 1;
        assert(dotfile_views(out@) =~= select(before, s@));
    }
    assert(record_views(rows@).subrange(0, rows@.len() as int) =~= record_views(rows@));
    out
}

/// The first row of `rows` that `s` picks, as callers see it.
pub fn first_row(rows: &Vec<DotFileRecord>, s: &Selector) -> (r: Option<DotFile>)
    ensures
        first_selected(record_views(rows@), s@, match r { Some(d) => Some(d@), None => None }),
        first_match(record_views(rows@), s@) == match r { Some(d) => Some(d@), None => None },
{
    let mut i: usize = 0;
    let ghost all = record_views(rows@);
    assert(all.subrange(0, all.len() as int) =~= all);
    while i < rows.len()
        invariant
            i <= rows@.len(),
            all == record_views(rows@),
            forall|j: int| 0 <= j < i ==> !selects(s@, record_views(rows@)[j]),
            first_match(all, s@) == first_match(all.subrange(i as int, all.len() as int), s@),
        decreases rows@.len() - i,
    {
        assert(all.subrange(i as int, all.len() as int).drop_first() =~= all.subrange(
            i as int + 1,
            all.len() as int,
        ));
        assert(all.subrange(i as int, all.len() as int)[0] == all[i as int]);
        if s.applies_to(&rows[i]) {
            let d = rows[i].to_dotfile();
            assert(selects(s@, record_views(rows@)[i as int]));
            return Some(d);
        }
        i = i + 1;
    }
    None
}

/// `rows` with `c` made to each row that `s` picks; returns how many.
pub fn update_rows(rows: &mut Vec<DotFileRecord>, s: &Selector, c: Change) -> (n: usize)
    ensures
        record_views(final(rows)@) == updated(record_views(old(rows)@), s@, c),
        n == count(record_views(old(rows)@), s@),
{
    let mut out: Vec<DotFileRecord> = Vec::new();
    let mut n: usize = 0;
    let mut i: usize = 0;
    let ghost old_views = record_views(rows@);
    while i < rows.len()
        invariant
            i <= rows@.len(),
            record_views(rows@) == old_views,
            out@.len() == i,
            forall|k: int|
                0 <= k < i ==> #[trigger] out@[k]@ == (if selects(s@, old_views[k]) {
                    changed(old_views[k], c)
                } else {
                    old_views[k]
                }),
            n == count(old_views.subrange(0, i as int), s@),
            n <= i,
        decreases rows@.len() - i,
    {
        let ghost before = old_views.subrange(0, i as int + 1);
        assert(before.drop_last() =~= old_views.subrange(0, i as int));
        if s.applies_to(&rows[i]) {
            out.push(rows[i].with_change(c));
            n = n + 1;
        } else {
            out.push(rows[i].duplicate());
        }
        i = i + 1;
    }
    assert(old_views.subrange(0, rows@.len() as int) =~= old_views);
    assert(record_views(out@) =~= updated(old_views, s@, c));
    *rows = out;
    n
}

/// `rows` without the rows that `s` picks; returns how many went.
pub fn remove_rows(rows: &mut Vec<DotFileRecord>, s: &Selector) -> (n: usize)
    ensures
        record_views(final(rows)@) == without(record_views(old(rows)@), s@),
        n == count(record_views(old(rows)@), s@),
{
    let mut out: Vec<DotFileRecord> = Vec::new();
    let mut n: usize = 0;
    let mut i: usize = 0;
    let ghost old_views = record_views(rows@);
    while i < rows.len()
        invariant
            i <= rows@.len(),
            record_views(rows@) == old_views,
            record_views(out@) == without(old_views.subrange(0, i as int), s@),
            n == count(old_views.subrange(0, i as int), s@),
            n <= i,
        decreases rows@.len() - i,
    {
        let ghost before = old_views.subrange(0, i as int + 1);
        assert(before.drop_last() =~= old_views.subrange(0, i as int));
        if s.applies_to(&rows[i]) {
            n = n + 1;
        } else {
            out.push(rows[i].duplicate());
        }
        i = i + 1;
        assert(record_views(out@) =~= without(before, s@));
    }
    assert(old_views.subrange(0, rows@.len() as int) =~= old_views);
    *rows = out;
    n
}

} // verus!
