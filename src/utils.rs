//! Labels and stored forms of statuses, the lines that list records, and
//! the library's version.
use vstd::prelude::*;
use crate::config::Config;
use crate::dotfile::{DotFile, DotFileStatus, DotFileView};
use crate::registry::{Query, dotfile_views, select};
use crate::text::owned;

verus! {

/// The version of this library.
pub const VERSION: &'static str = "0.1.0";

/// The version of this library.
pub fn get_version() -> (r: &'static str)
    ensures
        r@ == VERSION@,
{
    VERSION
}

/// How a status reads on screen.
pub open spec fn status_label(s: DotFileStatus) -> Seq<char> {
    match s {
        DotFileStatus::Staged => "Staged"@,
        DotFileStatus::Linked => "Linked"@,
        DotFileStatus::Unlinked => "Unlinked"@,
    }
}

/// How a status is stored.
pub open spec fn status_key(s: DotFileStatus) -> Seq<char> {
    match s {
        DotFileStatus::Staged => "staged"@,
        DotFileStatus::Linked => "linked"@,
        DotFileStatus::Unlinked => "unlinked"@,
    }
}

/// How a status reads on screen.
pub fn format_dotfile_status(status: DotFileStatus) -> (r: String)
    ensures
        r@ == status_label(status),
{
    match status {
        DotFileStatus::Staged => owned("Staged"),
        DotFileStatus::Linked => owned("Linked"),
        DotFileStatus::Unlinked => owned("Unlinked"),
    }
}

/// How a status is stored.
pub fn status_to_key(status: DotFileStatus) -> (r: &'static str)
    ensures
        r@ == status_key(status),
{
    match status {
        DotFileStatus::Staged => "staged",
        DotFileStatus::Linked => "linked",
        DotFileStatus::Unlinked => "unlinked",
    }
}

/// The status stored as `key`; `None` for a key that names no status, so
/// that a corrupt store is noticed rather than read as staged.
pub fn status_from_key(key: &str) -> (r: Option<DotFileStatus>)
    ensures
        match r {
            Some(s) => key@ == status_key(s),
            None => forall|s: DotFileStatus| key@ != status_key(s),
        },
{
    proof {
        reveal_strlit("staged");
        reveal_strlit("linked");
        reveal_strlit("unlinked");
    }
    let k = owned(key);
    if k == owned("staged") {
        Some(DotFileStatus::Staged)
    } else if k == owned("linked") {
        Some(DotFileStatus::Linked)
    } else if k == owned("unlinked") {
        Some(DotFileStatus::Unlinked)
    } else {
        assert forall|s: DotFileStatus| key@ != status_key(s) by {
            match s {
                DotFileStatus::Staged => {},
                DotFileStatus::Linked => {},
                DotFileStatus::Unlinked => {},
            }
        }
        None
    }
}

/// The line that lists one record.
pub open spec fn listing_line(d: DotFileView) -> Seq<char> {
    "  ["@ + status_label(d.status) + "] "@ + d.source + " -> "@ + d.target + match d.profile {
        Some(p) => " (profile: "@ + p + ")"@,
        None => seq![],
    }
}

/// The line that lists one record.
pub fn format_dotfile_line(d: &DotFile) -> (r: String)
    ensures
        r@ == listing_line(d@),
{
    let mut r = owned("  [");
    r.append(format_dotfile_status(d.status).as_str());
    r.append("] ");
    r.append(d.source.as_str());
    r.append(" -> ");
    r.append(d.target.as_str());
    match &d.profile {
        Some(p) => {
            r.append(" (profile: ");
            r.append(p.as_str());
            r.append(")");
        },
        None => {},
    }
    assert(r@ =~= listing_line(d@));
    r
}

/// The lines that list the active records, of the given profile when one
/// is given, one per record in registry order.
pub fn list_command(config: &Config, profile: Option<&str>) -> (r: Vec<String>)
    ensures
        r@.len() == select(
            config.rows(),
            Query::Active(match profile { Some(p) => Some(p@), None => None }),
        ).len(),
        forall|i: int|
            0 <= i < r@.len() ==> #[trigger] r@[i]@ == listing_line(
                select(
                    config.rows(),
                    Query::Active(match profile { Some(p) => Some(p@), None => None }),
                )[i],
            ),
{
    let files = config.get_dotfiles(profile);
    let mut r: Vec<String> = Vec::new();
    let mut i: usize = 0;
    while i < files.len()
        invariant
            i <= files@.len(),
            r@.len() == i,
            dotfile_views(files@) == select(
                config.rows(),
                Query::Active(match profile { Some(p) => Some(p@), None => None }),
            ),
            forall|k: int| 0 <= k < i ==> #[trigger] r@[k]@ == listing_line(files@[k]@),
        decreases files@.len() - i,
    {
        r.push(format_dotfile_line(&files[i]));
        i = i + 1;
    }
    proof {
        assert forall|k: int| 0 <= k < r@.len() implies #[trigger] r@[k]@ == listing_line(
            dotfile_views(files@)[k],
        ) by {}
    }
    r
}

} // verus!
