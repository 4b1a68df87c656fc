//! The configuration held by one process: the default target path, the
//! approved file types, the ignored paths, the managed folders and the
//! dotfile registry. Reading and writing their files and database is the
//! caller's part; every rule about their contents is here.
use vstd::prelude::*;
use crate::text::{find_char, from_chars, owned, slice_chars, to_chars, trim, trimmed};
use vstd::string::StrSliceExecFns;
use crate::path_utils::{normalize_with, normalized, opt_str};
use crate::dotfile::{DotFile, DotFileStatus};
use crate::orchestrator::OpError;
use crate::registry::{
    Change, DotFileRecord, Query, RecordView, Selector, active_targets_unique, changed, count,
    dotfile_views, first_row, first_selected, record_views, remove_rows, select, select_rows,
    selects, target_taken, update_rows, without,
};

verus! {

/// The name of the managed folder that wins the active-folder policy.
pub const DEFAULT_MANAGED_FOLDER: &'static str = "default";

/// The default target path when none was set.
pub const DEFAULT_TARGET_PATH: &'static str = "~/.forge";

/// One process's configuration, loaded by the caller.
pub struct Config {
    /// The content of the default-path file, if it could be read.
    pub default_path: Option<String>,
    /// The lines of the approved file types list.
    pub filetypes: Vec<String>,
    /// The lines of the ignored paths list.
    pub ignored_paths: Vec<String>,
    /// The lines of the managed folders list, each `name:path`.
    pub managed_folders: Vec<String>,
    /// The rows of the dotfile registry.
    pub dotfiles: Vec<DotFileRecord>,
}

pub open spec fn line_views(v: Seq<String>) -> Seq<Seq<char>> {
    v.map_values(|s: String| s@)
}

/// Some line of the list equals `item` once trimmed.
pub open spec fn line_present(lines: Seq<Seq<char>>, item: Seq<char>) -> bool {
    exists|i: int| 0 <= i < lines.len() && trimmed(lines[i]) == item
}

/// The list after appending each item that is not empty and not present.
pub open spec fn with_items(lines: Seq<Seq<char>>, items: Seq<Seq<char>>) -> Seq<Seq<char>>
    decreases items.len(),
{
    if items.len() == 0 {
        lines
    } else {
        let prev = with_items(lines, items.drop_last());
        let it = items.last();
        if it.len() == 0 || line_present(prev, it) {
            prev
        } else {
            prev.push(it)
        }
    }
}

/// The lines that do not equal `item` once trimmed.
pub open spec fn lines_without(lines: Seq<Seq<char>>, item: Seq<char>) -> Seq<Seq<char>>
    decreases lines.len(),
{
    if lines.len() == 0 {
        seq![]
    } else {
        let prev = lines_without(lines.drop_last(), item);
        if trimmed(lines.last()) == item {
            prev
        } else {
            prev.push(lines.last())
        }
    }
}

/// The list after removing, for each non-empty item, the lines that equal it.
pub open spec fn without_items(lines: Seq<Seq<char>>, items: Seq<Seq<char>>) -> Seq<Seq<char>>
    decreases items.len(),
{
    if items.len() == 0 {
        lines
    } else {
        let prev = without_items(lines, items.drop_last());
        let it = items.last();
        if it.len() == 0 {
            prev
        } else {
            lines_without(prev, it)
        }
    }
}

pub open spec fn trimmed_all(items: Seq<Seq<char>>) -> Seq<Seq<char>> {
    items.map_values(|s: Seq<char>| trimmed(s))
}

/// A managed-folder line split at its first `:`; a line without one is
/// no record.
pub open spec fn parse_folder_line(l: Seq<char>) -> Option<(Seq<char>, Seq<char>)> {
    if l.contains(':') {
        let k = choose|k: int| 0 <= k < l.len() && l[k] == ':' && forall|j: int| 0 <= j < k ==> l[j] != ':';
        Some((l.subrange(0, k), l.subrange(k + 1, l.len() as int)))
    } else {
        None
    }
}

/// The `(name, path)` records of the managed-folder lines, in order.
pub open spec fn parse_folders(lines: Seq<Seq<char>>) -> Seq<(Seq<char>, Seq<char>)>
    decreases lines.len(),
{
    if lines.len() == 0 {
        seq![]
    } else {
        let prev = parse_folders(lines.drop_last());
        match parse_folder_line(lines.last()) {
            Some(f) => prev.push(f),
            None => prev,
        }
    }
}

pub open spec fn pair_views(v: Seq<(String, String)>) -> Seq<(Seq<char>, Seq<char>)> {
    v.map_values(|p: (String, String)| (p.0@, p.1@))
}

/// Some record has this name.
pub open spec fn has_folder_named(fs: Seq<(Seq<char>, Seq<char>)>, name: Seq<char>) -> bool {
    exists|i: int| 0 <= i < fs.len() && fs[i].0 == name
}

/// The path of the first record with this name.
pub open spec fn folder_named(fs: Seq<(Seq<char>, Seq<char>)>, name: Seq<char>) -> Option<
    (Seq<char>, Seq<char>),
>
    decreases fs.len(),
{
    if fs.len() == 0 {
        None
    } else {
        match folder_named(fs.drop_last(), name) {
            Some(f) => Some(f),
            None => if fs.last().0 == name {
                Some(fs.last())
            } else {
                None
            },
        }
    }
}

/// The active folder: the one named `default`, else the first one.
pub open spec fn active_folder(fs: Seq<(Seq<char>, Seq<char>)>) -> Option<(Seq<char>, Seq<char>)> {
    match folder_named(fs, DEFAULT_MANAGED_FOLDER@) {
        Some(f) => Some(f),
        None => if fs.len() > 0 {
            Some(fs[0])
        } else {
            None
        },
    }
}

fn item_present(lines: &Vec<String>, item: &String) -> (r: bool)
    ensures
        r == line_present(line_views(lines@), item@),
{
    let mut i: usize = 0;
    while i < lines.len()
        invariant
            i <= lines@.len(),
            forall|k: int| 0 <= k < i ==> trimmed(line_views(lines@)[k]) != item@,
        decreases lines@.len() - i,
    {
        let t = trim(lines[i].as_str());
        if t == *item {
            assert(trimmed(line_views(lines@)[i as int]) == item@);
            return true;
        }
        i = i + 1;
    }
    false
}

fn append_items(lines: &mut Vec<String>, items: &Vec<String>)
    ensures
        line_views(final(lines)@) == with_items(line_views(old(lines)@), line_views(items@)),
{
    let ghost start = line_views(lines@);
    let mut i: usize = 0;
    while i < items.len()
        invariant
            i <= items@.len(),
            line_views(lines@) == with_items(start, line_views(items@).subrange(0, i as int)),
        decreases items@.len() - i,
    {
        let ghost sub = line_views(items@).subrange(0, i as int + 1);
        assert(sub.drop_last() =~= line_views(items@).subrange(0, i as int));
        let it = items[i].clone();
        if it.as_str().unicode_len() == 0 || item_present(lines, &it) {
        } else {
            let ghost before = line_views(lines@);
            lines.push(it);
            assert(line_views(lines@) =~= before.push(items@[i as int]@));
        }
        i = i + 1;
    }
    assert(line_views(items@).subrange(0, items@.len() as int) =~= line_views(items@));
}

fn drop_matching(lines: &mut Vec<String>, item: &String)
    ensures
        line_views(final(lines)@) == lines_without(line_views(old(lines)@), item@),
{
    let ghost start = line_views(lines@);
    let mut out: Vec<String> = Vec::new();
    let mut i: usize = 0;
    while i < lines.len()
        invariant
            i <= lines@.len(),
            line_views(lines@) == start,
            line_views(out@) == lines_without(start.subrange(0, i as int), item@),
        decreases lines@.len() - i,
    {
        let ghost sub = start.subrange(0, i as int + 1);
        assert(sub.drop_last() =~= start.subrange(0, i as int));
        let t = trim(lines[i].as_str());
        if t != *item {
            let ghost before = line_views(out@);
            out.push(lines[i].clone());
            assert(line_views(out@) =~= before.push(start[i as int]));
        }
        i = i + 1;
    }
    assert(start.subrange(0, lines@.len() as int) =~= start);
    *lines = out;
}

fn remove_items(lines: &mut Vec<String>, items: &Vec<String>)
    ensures
        line_views(final(lines)@) == without_items(line_views(old(lines)@), trimmed_all(line_views(items@))),
{
    let ghost start = line_views(lines@);
    let ghost all = trimmed_all(line_views(items@));
    let mut i: usize = 0;
    while i < items.len()
        invariant
            i <= items@.len(),
            all == trimmed_all(line_views(items@)),
            line_views(lines@) == without_items(start, all.subrange(0, i as int)),
        decreases items@.len() - i,
    {
        let ghost sub = all.subrange(0, i as int + 1);
        assert(sub.drop_last() =~= all.subrange(0, i as int));
        let it = trim(items[i].as_str());
        if it.as_str().unicode_len() != 0 {
            drop_matching(lines, &it);
        }
        i = i + 1;
    }
    assert(all.subrange(0, items@.len() as int) =~= all);
}

fn trim_all(items: &Vec<String>) -> (r: Vec<String>)
    ensures
        line_views(r@) == trimmed_all(line_views(items@)),
{
    let mut r: Vec<String> = Vec::new();
    let mut i: usize = 0;
    while i < items.len()
        invariant
            i <= items@.len(),
            line_views(r@) == trimmed_all(line_views(items@)).subrange(0, i as int),
        decreases items@.len() - i,
    {
        let ghost before = line_views(r@);
        let t = trim(items[i].as_str());
        r.push(t);
        assert(line_views(r@) =~= before.push(t@));
        i = i + 1;
        assert(line_views(r@) =~= trimmed_all(line_views(items@)).subrange(0, i as int));
    }
    assert(trimmed_all(line_views(items@)).subrange(0, items@.len() as int) =~= trimmed_all(
        line_views(items@),
    ));
    r
}

fn clone_lines(v: &Vec<String>) -> (r: Vec<String>)
    ensures
        line_views(r@) == line_views(v@),
{
    let mut r: Vec<String> = Vec::new();
    let mut i: usize = 0;
    while i < v.len()
        invariant
            i <= v@.len(),
            line_views(r@) == line_views(v@).subrange(0, i as int),
        decreases v@.len() - i,
    {
        let ghost before = line_views(r@);
        let t = v[i].clone();
        r.push(t);
        assert(line_views(r@) =~= before.push(t@));
        i = i + 1;
        assert(line_views(r@) =~= line_views(v@).subrange(0, i as int));
    }
    assert(line_views(v@).subrange(0, v@.len() as int) =~= line_views(v@));
    r
}

fn parse_line(l: &String) -> (r: Option<(String, String)>)
    ensures
        match r {
            Some(p) => parse_folder_line(l@) == Some((p.0@, p.1@)),
            None => parse_folder_line(l@) is None,
        },
{
    let c = to_chars(l.as_str());
    let n = c.len();
    match find_char(&c, ':') {
        Some(k) => {
            assert(k < n);
            let name = from_chars(&slice_chars(&c, 0, k));
            let path = from_chars(&slice_chars(&c, k + 1, n));
            proof {
                assert(l@.contains(':'));
                let kk = choose|kk: int|
                    0 <= kk < l@.len() && l@[kk] == ':' && forall|j: int| 0 <= j < kk ==> l@[j] != ':';
                if kk < k {
                } else if kk > k {
                    assert(l@[k as int] == ':');
                }
                assert(kk == k);
            }
            Some((name, path))
        },
        None => None,
    }
}

impl Config {
    /// A configuration with the given lists and an empty registry.
    pub fn new(
        default_path: Option<String>,
        filetypes: Vec<String>,
        ignored_paths: Vec<String>,
        managed_folders: Vec<String>,
    ) -> (r: Self)
        ensures
            r.default_path == default_path,
            r.filetypes == filetypes,
            r.ignored_paths == ignored_paths,
            r.managed_folders == managed_folders,
            r.dotfiles@.len() == 0,
            r.wf(),
    {
        Config { default_path, filetypes, ignored_paths, managed_folders, dotfiles: Vec::new() }
    }

    /// The default target path: the stored one without surrounding
    /// whitespace, or `~/.forge` when none was stored.
    pub fn read_default_path(&self) -> (r: String)
        ensures
            r@ == match self.default_path {
                Some(p) => trimmed(p@),
                None => DEFAULT_TARGET_PATH@,
            },
    {
        match &self.default_path {
            Some(p) => trim(p.as_str()),
            None => owned(DEFAULT_TARGET_PATH),
        }
    }

    /// Stores a new default target path.
    pub fn set_default_path(&mut self, path: &str)
        ensures
            final(self).default_path is Some,
            final(self).default_path->0@ == path@,
            final(self).filetypes == old(self).filetypes,
            final(self).ignored_paths == old(self).ignored_paths,
            final(self).managed_folders == old(self).managed_folders,
            final(self).dotfiles == old(self).dotfiles,
    {
        self.default_path = Some(owned(path));
    }

    /// Approves each file type, trimmed, that is not empty and not yet
    /// approved.
    pub fn add_filetypes(&mut self, extensions: &Vec<String>)
        ensures
            line_views(final(self).filetypes@) == with_items(
                line_views(old(self).filetypes@),
                trimmed_all(line_views(extensions@)),
            ),
            final(self).ignored_paths == old(self).ignored_paths,
            final(self).managed_folders == old(self).managed_folders,
            final(self).dotfiles == old(self).dotfiles,
            final(self).default_path == old(self).default_path,
    {
        let items = trim_all(extensions);
        append_items(&mut self.filetypes, &items);
    }

    /// Withdraws the approval of each file type.
    pub fn remove_filetypes(&mut self, extensions: &Vec<String>)
        ensures
            line_views(final(self).filetypes@) == without_items(
                line_views(old(self).filetypes@),
                trimmed_all(line_views(extensions@)),
            ),
            final(self).ignored_paths == old(self).ignored_paths,
            final(self).managed_folders == old(self).managed_folders,
            final(self).dotfiles == old(self).dotfiles,
            final(self).default_path == old(self).default_path,
    {
        remove_items(&mut self.filetypes, extensions);
    }

    /// The approved file types.
    pub fn list_filetypes(&self) -> (r: Vec<String>)
        ensures
            line_views(r@) == line_views(self.filetypes@),
    {
        clone_lines(&self.filetypes)
    }

    /// Ignores each (already normalised) path that is not empty and not yet
    /// ignored.
    pub fn add_ignored_paths(&mut self, paths: &Vec<String>)
        ensures
            line_views(final(self).ignored_paths@) == with_items(
                line_views(old(self).ignored_paths@),
                line_views(paths@),
            ),
            final(self).filetypes == old(self).filetypes,
            final(self).managed_folders == old(self).managed_folders,
            final(self).dotfiles == old(self).dotfiles,
            final(self).default_path == old(self).default_path,
    {
        append_items(&mut self.ignored_paths, paths);
    }

    /// Stops ignoring each path.
    pub fn remove_ignored_paths(&mut self, paths: &Vec<String>)
        ensures
            line_views(final(self).ignored_paths@) == without_items(
                line_views(old(self).ignored_paths@),
                trimmed_all(line_views(paths@)),
            ),
            final(self).filetypes == old(self).filetypes,
            final(self).managed_folders == old(self).managed_folders,
            final(self).dotfiles == old(self).dotfiles,
            final(self).default_path == old(self).default_path,
    {
        remove_items(&mut self.ignored_paths, paths);
    }

    /// The ignored paths.
    pub fn list_ignored_paths(&self) -> (r: Vec<String>)
        ensures
            line_views(r@) == line_views(self.ignored_paths@),
    {
        clone_lines(&self.ignored_paths)
    }

    /// The `(name, path)` records of the managed folders, in order.
    pub fn get_managed_folders(&self) -> (r: Vec<(String, String)>)
        ensures
            pair_views(r@) == parse_folders(line_views(self.managed_folders@)),
    {
        let ghost lines = line_views(self.managed_folders@);
        let mut r: Vec<(String, String)> = Vec::new();
        let mut i: usize = 0;
        while i < self.managed_folders.len()
            invariant
                i <= self.managed_folders@.len(),
                lines == line_views(self.managed_folders@),
                pair_views(r@) == parse_folders(lines.subrange(0, i as int)),
            decreases self.managed_folders@.len() - i,
        {
            let ghost sub = lines.subrange(0, i as int + 1);
            assert(sub.drop_last() =~= lines.subrange(0, i as int));
            let ghost before = pair_views(r@);
            match parse_line(&self.managed_folders[i]) {
                Some(p) => {
                    r.push(p);
                    assert(pair_views(r@) =~= before.push((p.0@, p.1@)));
                },
                None => {},
            }
            i = i + 1;
        }
        assert(lines.subrange(0, self.managed_folders@.len() as int) =~= lines);
        r
    }

    /// Registers a managed folder under a new name, with its path in normal
    /// form (`home` for `~`, relative paths from `cwd`); a name already
    /// taken leaves the list as it is. Returns whether it was added.
    pub fn add_managed_folder(&mut self, name: &str, path: &str, home: Option<&str>, cwd: &str) -> (added:
        bool)
        ensures
            added == !has_folder_named(parse_folders(line_views(old(self).managed_folders@)), name@),
            added ==> line_views(final(self).managed_folders@) == line_views(
                old(self).managed_folders@,
            ).push(name@ + seq![':'] + normalized(path@, opt_str(home), cwd@)),
            !added ==> final(self).managed_folders == old(self).managed_folders,
            final(self).filetypes == old(self).filetypes,
            final(self).ignored_paths == old(self).ignored_paths,
            final(self).dotfiles == old(self).dotfiles,
            final(self).default_path == old(self).default_path,
    {
        let folders = self.get_managed_folders();
        let ghost fs = pair_views(folders@);
        let n = owned(name);
        let mut i: usize = 0;
        while i < folders.len()
            invariant
                i <= folders@.len(),
                fs == pair_views(folders@),
                fs == parse_folders(line_views(old(self).managed_folders@)),
                *self == *old(self),
                n@ == name@,
                forall|k: int| 0 <= k < i ==> fs[k].0 != name@,
            decreases folders@.len() - i,
        {
            if folders[i].0 == n {
                assert(fs[i as int].0 == name@);
                return false;
            }
            i = i + 1;
        }
        proof {
            reveal_strlit(":");
        }
        let abs = normalize_with(path, home, cwd);
        let mut line = owned(name);
        line.append(":");
        line.append(abs.as_str());
        assert(":"@ =~= seq![':']);
        assert(line@ == name@ + seq![':'] + abs@);
        let ghost before = line_views(self.managed_folders@);
        self.managed_folders.push(line);
        assert(line_views(self.managed_folders@) =~= before.push(name@ + seq![':'] + abs@));
        true
    }

    /// Whether some managed folder has this path.
    pub fn is_managed_folder(&self, path: &str) -> (r: bool)
        ensures
            r == exists|i: int|
                0 <= i < parse_folders(line_views(self.managed_folders@)).len() && parse_folders(
                    line_views(self.managed_folders@),
                )[i].1 == path@,
    {
        let folders = self.get_managed_folders();
        let ghost fs = pair_views(folders@);
        let p = owned(path);
        let mut i: usize = 0;
        while i < folders.len()
            invariant
                i <= folders@.len(),
                fs == pair_views(folders@),
                fs == parse_folders(line_views(self.managed_folders@)),
                p@ == path@,
                forall|k: int| 0 <= k < i ==> fs[k].1 != path@,
            decreases folders@.len() - i,
        {
            if folders[i].1 == p {
                assert(fs[i as int].1 == path@);
                return true;
            }
            i = i + 1;
        }
        false
    }

    /// The path of the first managed folder with this name.
    pub fn get_managed_folder_by_name(&self, name: &str) -> (r: Option<String>)
        ensures
            match folder_named(parse_folders(line_views(self.managed_folders@)), name@) {
                Some(f) => r is Some && r->0@ == f.1,
                None => r is None,
            },
    {
        match self.find_folder(name) {
            Some(f) => Some(f.1),
            None => None,
        }
    }

    fn find_folder(&self, name: &str) -> (r: Option<(String, String)>)
        ensures
            match folder_named(parse_folders(line_views(self.managed_folders@)), name@) {
                Some(f) => match r {
                    Some(p) => (p.0@, p.1@) == f,
                    None => false,
                },
                None => r is None,
            },
    {
        let folders = self.get_managed_folders();
        let ghost fs = pair_views(folders@);
        let n = owned(name);
        let mut i: usize = 0;
        while i < folders.len()
            invariant
                i <= folders@.len(),
                fs == pair_views(folders@),
                fs == parse_folders(line_views(self.managed_folders@)),
                n@ == name@,
                folder_named(fs.subrange(0, i as int), name@) is None,
            decreases folders@.len() - i,
        {
            let ghost sub = fs.subrange(0, i as int + 1);
            assert(sub.drop_last() =~= fs.subrange(0, i as int));
            if folders[i].0 == n {
                proof {
                    lemma_folder_named_prefix(fs, i as int + 1, name@);
                }
                return Some((folders[i].0.clone(), folders[i].1.clone()));
            }
            i = i + 1;
        }
        assert(fs.subrange(0, folders@.len() as int) =~= fs);
        None
    }

    /// The active managed folder: the one named `default`, else the first
    /// one registered; `None` when there is none.
    pub fn get_active_managed_folder(&self) -> (r: Option<(String, String)>)
        ensures
            match active_folder(parse_folders(line_views(self.managed_folders@))) {
                Some(f) => match r {
                    Some(p) => (p.0@, p.1@) == f,
                    None => false,
                },
                None => r is None,
            },
    {
        match self.find_folder(DEFAULT_MANAGED_FOLDER) {
            Some(f) => Some(f),
            None => {
                let folders = self.get_managed_folders();
                if folders.len() > 0 {
                    Some((folders[0].0.clone(), folders[0].1.clone()))
                } else {
                    None
                }
            },
        }
    }
}

/// A name found in a prefix is the name found in the whole sequence.
proof fn lemma_folder_named_prefix(fs: Seq<(Seq<char>, Seq<char>)>, n: int, name: Seq<char>)
    requires
        0 < n <= fs.len(),
        fs[n - 1].0 == name,
        folder_named(fs.subrange(0, n - 1), name) is None,
    ensures
        folder_named(fs, name) == Some(fs[n - 1]),
    decreases fs.len() - n,
{
    if n == fs.len() {
        assert(fs.drop_last() =~= fs.subrange(0, n - 1));
    } else {
        assert(fs.drop_last().subrange(0, n - 1) =~= fs.subrange(0, n - 1));
        lemma_folder_named_prefix(fs.drop_last(), n, name);
    }
}

/// The new row that staging or adding a file creates.
pub open spec fn new_row(
    source: Seq<char>,
    target: Seq<char>,
    profile: Option<Seq<char>>,
    status: DotFileStatus,
) -> RecordView {
    RecordView { source, target, profile, status, active: true }
}

/// The registry after inserting an active row, unless an active row
/// already claims its target.
pub open spec fn inserted(rows: Seq<RecordView>, row: RecordView) -> Seq<RecordView> {
    if target_taken(rows, row.target) {
        rows
    } else {
        rows.push(row)
    }
}

/// Each row of `without(rows, s)` is a row of `rows`, in the same order.
proof fn lemma_without_rows(rows: Seq<RecordView>, s: Query)
    ensures
        without(rows, s).len() <= rows.len(),
        forall|k: int|
            0 <= k < without(rows, s).len() ==> exists|j: int|
                0 <= j < rows.len() && #[trigger] without(rows, s)[k] == rows[j],
    decreases rows.len(),
{
    if rows.len() > 0 {
        lemma_without_rows(rows.drop_last(), s);
        let prev = without(rows.drop_last(), s);
        assert forall|k: int| 0 <= k < without(rows, s).len() implies exists|j: int|
            0 <= j < rows.len() && #[trigger] without(rows, s)[k] == rows[j] by {
            if k < prev.len() {
                let j = choose|j: int| 0 <= j < rows.drop_last().len() && prev[k] == rows.drop_last()[j];
                assert(without(rows, s)[k] == rows[j]);
            } else {
                assert(without(rows, s)[k] == rows[rows.len() - 1]);
            }
        }
    }
}

/// Removing rows keeps active targets unique.
proof fn lemma_without_unique(rows: Seq<RecordView>, s: Query)
    requires
        active_targets_unique(rows),
    ensures
        active_targets_unique(without(rows, s)),
    decreases rows.len(),
{
    if rows.len() > 0 {
        let d = rows.drop_last();
        assert(active_targets_unique(d)) by {
            assert forall|i: int, j: int|
                0 <= i < d.len() && 0 <= j < d.len() && i != j && d[i].active && d[j].active
                implies d[i].target != d[j].target by {
                assert(d[i] == rows[i] && d[j] == rows[j]);
            }
        }
        lemma_without_unique(d, s);
        lemma_without_rows(d, s);
        let prev = without(d, s);
        let w = without(rows, s);
        if !selects(s, rows.last()) {
            assert forall|i: int, j: int|
                0 <= i < w.len() && 0 <= j < w.len() && i != j && w[i].active && w[j].active
                implies w[i].target != w[j].target by {
                if i < prev.len() && j < prev.len() {
                    assert(w[i] == prev[i] && w[j] == prev[j]);
                } else if i < prev.len() {
                    let a = choose|a: int| 0 <= a < d.len() && #[trigger] prev[i] == d[a];
                    assert(w[i] == rows[a]);
                    assert(w[j] == rows[rows.len() - 1]);
                } else {
                    let a = choose|a: int| 0 <= a < d.len() && #[trigger] prev[j] == d[a];
                    assert(w[j] == rows[a]);
                    assert(w[i] == rows[rows.len() - 1]);
                }
            }
        }
    }
}

/// Updating rows without activating any keeps active targets unique.
proof fn lemma_updated_unique(rows: Seq<RecordView>, s: Query, c: Change)
    requires
        active_targets_unique(rows),
    ensures
        active_targets_unique(crate::registry::updated(rows, s, c)),
        crate::registry::updated(rows, s, c).len() == rows.len(),
{
    let u = crate::registry::updated(rows, s, c);
    assert forall|i: int, j: int|
        0 <= i < u.len() && 0 <= j < u.len() && i != j && u[i].active && u[j].active
        implies u[i].target != u[j].target by {
        assert(rows[i].active && rows[j].active);
    }
}

impl Config {
    /// The registry rows.
    pub open spec fn rows(&self) -> Seq<RecordView> {
        record_views(self.dotfiles@)
    }

    /// No two active records claim the same target.
    pub open spec fn wf(&self) -> bool {
        active_targets_unique(self.rows())
    }

    /// Puts back a row read from storage. An active row whose target is
    /// already claimed is refused, and then nothing changes.
    pub fn load_record(&mut self, record: DotFileRecord) -> (loaded: bool)
        requires
            old(self).wf(),
        ensures
            final(self).wf(),
            loaded == !(record.active && target_taken(old(self).rows(), record@.target)),
            loaded ==> final(self).rows() == old(self).rows().push(record@),
            !loaded ==> final(self).rows() == old(self).rows(),
            final(self).managed_folders == old(self).managed_folders,
    {
        if record.active {
            let sel = Selector::ActiveTarget(record.target.clone());
            let found = first_row(&self.dotfiles, &sel);
            if found.is_some() {
                return false;
            }
            assert(!target_taken(self.rows(), record@.target)) by {
                if target_taken(self.rows(), record@.target) {
                    let i = choose|i: int| 0 <= i < self.rows().len() && self.rows()[i].active
                        && self.rows()[i].target == record@.target;
                    assert(selects(sel@, self.rows()[i]));
                }
            }
        }
        let ghost before = self.rows();
        let ghost rv = record@;
        self.dotfiles.push(record);
        assert(self.rows() =~= before.push(rv));
        true
    }

    fn insert_row(
        &mut self,
        source: &str,
        target: &str,
        profile: Option<&str>,
        status: DotFileStatus,
    ) -> (r: bool)
        requires
            old(self).wf(),
        ensures
            final(self).wf(),
            r == !target_taken(old(self).rows(), target@),
            final(self).rows() == inserted(
                old(self).rows(),
                new_row(source@, target@, match profile { Some(p) => Some(p@), None => None }, status),
            ),
            final(self).managed_folders == old(self).managed_folders,
    {
        let record = DotFileRecord {
            source: owned(source),
            target: owned(target),
            profile: match profile {
                Some(p) => Some(owned(p)),
                None => None,
            },
            status,
            active: true,
        };
        self.load_record(record)
    }

    /// Records a newly staged file. Fails, changing nothing, when an
    /// active record already claims the target.
    pub fn stage_dotfile(&mut self, source: &str, target: &str, profile: Option<&str>) -> (r: Result<
        (),
        RegistryError,
    >)
        requires
            old(self).wf(),
        ensures
            final(self).wf(),
            r is Ok == !target_taken(old(self).rows(), target@),
            r is Err ==> r == Err::<(), RegistryError>(RegistryError::TargetTaken),
            final(self).rows() == inserted(
                old(self).rows(),
                new_row(
                    source@,
                    target@,
                    match profile { Some(p) => Some(p@), None => None },
                    DotFileStatus::Staged,
                ),
            ),
            final(self).managed_folders == old(self).managed_folders,
    {
        if self.insert_row(source, target, profile, DotFileStatus::Staged) {
            Ok(())
        } else {
            Err(RegistryError::TargetTaken)
        }
    }

    /// Records a file as linked directly. Fails, changing nothing, when an
    /// active record already claims the target.
    pub fn add_dotfile(&mut self, source: &str, target: &str, profile: Option<&str>) -> (r: Result<
        (),
        RegistryError,
    >)
        requires
            old(self).wf(),
        ensures
            final(self).wf(),
            r is Ok == !target_taken(old(self).rows(), target@),
            r is Err ==> r == Err::<(), RegistryError>(RegistryError::TargetTaken),
            final(self).rows() == inserted(
                old(self).rows(),
                new_row(
                    source@,
                    target@,
                    match profile { Some(p) => Some(p@), None => None },
                    DotFileStatus::Linked,
                ),
            ),
            final(self).managed_folders == old(self).managed_folders,
    {
        if self.insert_row(source, target, profile, DotFileStatus::Linked) {
            Ok(())
        } else {
            Err(RegistryError::TargetTaken)
        }
    }

    fn change_rows(&mut self, sel: &Selector, c: Change) -> (n: usize)
        requires
            old(self).wf(),
        ensures
            final(self).wf(),
            final(self).rows() == crate::registry::updated(old(self).rows(), sel@, c),
            n == count(old(self).rows(), sel@),
            final(self).managed_folders == old(self).managed_folders,
    {
        proof {
            lemma_updated_unique(self.rows(), sel@, c);
        }
        update_rows(&mut self.dotfiles, sel, c)
    }

    /// Marks the active record of this source and target as linked;
    /// returns how many records changed.
    pub fn link_dotfile(&mut self, source: &str, target: &str) -> (n: usize)
        requires
            old(self).wf(),
        ensures
            final(self).wf(),
            final(self).rows() == crate::registry::updated(
                old(self).rows(),
                Query::ActiveSourceTarget(source@, target@),
                Change::SetStatus(DotFileStatus::Linked),
            ),
            n == count(old(self).rows(), Query::ActiveSourceTarget(source@, target@)),
    {
        let sel = Selector::ActiveSourceTarget(owned(source), owned(target));
        self.change_rows(&sel, Change::SetStatus(DotFileStatus::Linked))
    }
}

impl Config {
    /// The records that the selector picks, in order.
    pub fn select(&self, sel: &Selector) -> (r: Vec<DotFile>)
        ensures
            dotfile_views(r@) == select(self.rows(), sel@),
    {
        select_rows(&self.dotfiles, sel)
    }

    /// The active records, of the given profile when one is given.
    pub fn get_dotfiles(&self, profile: Option<&str>) -> (r: Vec<DotFile>)
        ensures
            dotfile_views(r@) == select(
                self.rows(),
                Query::Active(match profile { Some(p) => Some(p@), None => None }),
            ),
    {
        let sel = Selector::Active(
            match profile {
                Some(p) => Some(owned(p)),
                None => None,
            },
        );
        select_rows(&self.dotfiles, &sel)
    }

    /// The active staged records, of the given profile when one is given.
    pub fn get_staged_dotfiles(&self, profile: Option<&str>) -> (r: Vec<DotFile>)
        ensures
            dotfile_views(r@) == select(
                self.rows(),
                Query::ActiveStaged(match profile { Some(p) => Some(p@), None => None }),
            ),
    {
        let sel = Selector::ActiveStaged(
            match profile {
                Some(p) => Some(owned(p)),
                None => None,
            },
        );
        select_rows(&self.dotfiles, &sel)
    }

    /// Marks the active record of this target as removed; returns whether
    /// there was one.
    pub fn deactivate_dotfile(&mut self, target: &str) -> (found: bool)
        requires
            old(self).wf(),
        ensures
            final(self).wf(),
            final(self).rows() == crate::registry::updated(
                old(self).rows(),
                Query::ActiveTarget(target@),
                Change::Deactivate,
            ),
            found == target_taken(old(self).rows(), target@),
    {
        let sel = Selector::ActiveTarget(owned(target));
        let n = self.change_rows(&sel, Change::Deactivate);
        proof {
            lemma_count_positive(old(self).rows(), sel@);
        }
        n > 0
    }

    /// Records that the file of this target was restored to its original
    /// place: the active record becomes unlinked and inactive. Returns
    /// whether there was one.
    pub fn unlink_dotfile(&mut self, target: &str) -> (found: bool)
        requires
            old(self).wf(),
        ensures
            final(self).wf(),
            final(self).rows() == crate::registry::updated(
                old(self).rows(),
                Query::ActiveTarget(target@),
                Change::DeactivateAs(DotFileStatus::Unlinked),
            ),
            found == target_taken(old(self).rows(), target@),
    {
        let sel = Selector::ActiveTarget(owned(target));
        let n = self.change_rows(&sel, Change::DeactivateAs(DotFileStatus::Unlinked));
        proof {
            lemma_count_positive(old(self).rows(), sel@);
        }
        n > 0
    }

    /// Deletes every record, active or not, of this target; returns whether
    /// there was one.
    pub fn remove_dotfile(&mut self, target: &str) -> (found: bool)
        requires
            old(self).wf(),
        ensures
            final(self).wf(),
            final(self).rows() == without(old(self).rows(), Query::AnyTarget(target@)),
            found == (count(old(self).rows(), Query::AnyTarget(target@)) > 0),
    {
        let sel = Selector::AnyTarget(owned(target));
        proof {
            lemma_without_unique(self.rows(), sel@);
        }
        let n = remove_rows(&mut self.dotfiles, &sel);
        n > 0
    }

    /// The active record of this target.
    pub fn find_dotfile_by_target(&self, target: &str) -> (r: Option<DotFile>)
        ensures
            crate::registry::first_match(self.rows(), Query::ActiveTarget(target@)) == match r {
                Some(d) => Some(d@),
                None => None,
            },
            first_selected(
                self.rows(),
                Query::ActiveTarget(target@),
                match r { Some(d) => Some(d@), None => None },
            ),
    {
        first_row(&self.dotfiles, &Selector::ActiveTarget(owned(target)))
    }

    /// The first active record of this source.
    pub fn find_dotfile_by_source(&self, source: &str) -> (r: Option<DotFile>)
        ensures
            crate::registry::first_match(self.rows(), Query::ActiveSource(source@)) == match r {
                Some(d) => Some(d@),
                None => None,
            },
            first_selected(
                self.rows(),
                Query::ActiveSource(source@),
                match r { Some(d) => Some(d@), None => None },
            ),
    {
        first_row(&self.dotfiles, &Selector::ActiveSource(owned(source)))
    }

    /// Unstages everything currently staged: each active staged record
    /// becomes inactive. Returns those records, whose staging links the
    /// caller removes.
    pub fn unstage_all(&mut self) -> (r: Vec<DotFile>)
        requires
            old(self).wf(),
        ensures
            final(self).wf(),
            final(self).rows() == unstaged_all(old(self).rows()),
            dotfile_views(r@) == select(old(self).rows(), Query::ActiveStaged(None)),
    {
        let sel = Selector::ActiveStaged(None);
        let r = select_rows(&self.dotfiles, &sel);
        self.change_rows(&sel, Change::Deactivate);
        r
    }
}

impl Config {
    /// Unstages the staged records whose source or target is this path;
    /// returns them, whose staging links the caller removes.
    pub fn unstage_path(&mut self, path: &str) -> (r: Vec<DotFile>)
        requires
            old(self).wf(),
        ensures
            final(self).wf(),
            final(self).rows() == crate::registry::updated(
                old(self).rows(),
                Query::ActiveStagedAt(path@),
                Change::Deactivate,
            ),
            dotfile_views(r@) == select(old(self).rows(), Query::ActiveStagedAt(path@)),
    {
        let sel = Selector::ActiveStagedAt(owned(path));
        let r = select_rows(&self.dotfiles, &sel);
        self.change_rows(&sel, Change::Deactivate);
        r
    }
}

impl Config {
    /// Records a staged file once its staging plan has run: a plan that
    /// failed leaves the registry as it was and its error comes back; else
    /// the file is recorded as by [`Config::stage_dotfile`].
    pub fn complete_stage(
        &mut self,
        source: &str,
        target: &str,
        profile: Option<&str>,
        outcome: Result<(), OpError>,
    ) -> (r: Result<(), OpError>)
        requires
            old(self).wf(),
        ensures
            final(self).wf(),
            outcome is Err ==> final(self).rows() == old(self).rows() && r == outcome,
            outcome is Ok ==> final(self).rows() == inserted(
                old(self).rows(),
                new_row(source@, target@, opt_str(profile), DotFileStatus::Staged),
            ),
            outcome is Ok ==> (r is Ok <==> !target_taken(old(self).rows(), target@)),
            outcome is Ok && r is Err ==> r == Err::<(), OpError>(OpError::AlreadyExists),
    {
        match outcome {
            Err(e) => Err(e),
            Ok(()) => match self.stage_dotfile(source, target, profile) {
                Ok(()) => Ok(()),
                Err(_) => Err(OpError::AlreadyExists),
            },
        }
    }

    /// Records a link once its plan has run: only a plan that went through
    /// marks the record linked; after a failure it stays staged.
    pub fn complete_link(&mut self, record: &DotFile, outcome: Result<(), OpError>) -> (r: Result<
        (),
        OpError,
    >)
        requires
            old(self).wf(),
        ensures
            final(self).wf(),
            r == outcome,
            outcome is Err ==> final(self).rows() == old(self).rows(),
            outcome is Ok ==> final(self).rows() == crate::registry::updated(
                old(self).rows(),
                Query::ActiveSourceTarget(record@.source, record@.target),
                Change::SetStatus(DotFileStatus::Linked),
            ),
    {
        if outcome.is_ok() {
            self.link_dotfile(record.source.as_str(), record.target.as_str());
        }
        outcome
    }

    /// Records an unlink once its plan has run: only a plan that went
    /// through makes the record unlinked and inactive.
    pub fn complete_unlink(&mut self, target: &str, outcome: Result<(), OpError>) -> (r: Result<
        (),
        OpError,
    >)
        requires
            old(self).wf(),
        ensures
            final(self).wf(),
            r == outcome,
            outcome is Err ==> final(self).rows() == old(self).rows(),
            outcome is Ok ==> final(self).rows() == crate::registry::updated(
                old(self).rows(),
                Query::ActiveTarget(target@),
                Change::DeactivateAs(DotFileStatus::Unlinked),
            ),
    {
        if outcome.is_ok() {
            self.unlink_dotfile(target);
        }
        outcome
    }

    /// Records a removal or a deletion once its plan has run: only a plan
    /// that went through deletes the records of the target.
    pub fn complete_remove(&mut self, target: &str, outcome: Result<(), OpError>) -> (r: Result<
        (),
        OpError,
    >)
        requires
            old(self).wf(),
        ensures
            final(self).wf(),
            r == outcome,
            outcome is Err ==> final(self).rows() == old(self).rows(),
            outcome is Ok ==> final(self).rows() == without(
                old(self).rows(),
                Query::AnyTarget(target@),
            ),
    {
        if outcome.is_ok() {
            self.remove_dotfile(target);
        }
        outcome
    }
}

/// The registry once every active staged record is made inactive.
pub open spec fn unstaged_all(rows: Seq<RecordView>) -> Seq<RecordView> {
    crate::registry::updated(rows, Query::ActiveStaged(None), Change::Deactivate)
}

/// A positive count means some row is picked, and the other way round.
proof fn lemma_count_positive(rows: Seq<RecordView>, s: Query)
    ensures
        (count(rows, s) > 0) == exists|i: int| 0 <= i < rows.len() && selects(s, rows[i]),
    decreases rows.len(),
{
    if rows.len() > 0 {
        lemma_count_positive(rows.drop_last(), s);
        if exists|i: int| 0 <= i < rows.len() && selects(s, rows[i]) {
            let i = choose|i: int| 0 <= i < rows.len() && selects(s, rows[i]);
            if i < rows.len() - 1 {
                assert(selects(s, rows.drop_last()[i]));
            }
        }
        if exists|i: int| 0 <= i < rows.drop_last().len() && selects(s, rows.drop_last()[i]) {
            let i = choose|i: int| 0 <= i < rows.drop_last().len() && selects(s, rows.drop_last()[i]);
            assert(selects(s, rows[i]));
        }
    }
}

/// Staging the same file into the same target twice, with no unstaging in
/// between, leaves a single active record for that target: the second
/// staging changes nothing, and no two active records ever share a target.
pub proof fn lemma_stage_twice_keeps_one_record(
    rows: Seq<RecordView>,
    source: Seq<char>,
    target: Seq<char>,
    profile: Option<Seq<char>>,
)
    requires
        active_targets_unique(rows),
    ensures
        ({
            let once = inserted(rows, new_row(source, target, profile, DotFileStatus::Staged));
            let twice = inserted(once, new_row(source, target, profile, DotFileStatus::Staged));
            &&& twice == once
            &&& active_targets_unique(twice)
            &&& target_taken(twice, target)
        }),
{
    let row = new_row(source, target, profile, DotFileStatus::Staged);
    let once = inserted(rows, row);
    if !target_taken(rows, target) {
        assert(once[rows.len() as int] == row);
        assert forall|i: int, j: int|
            0 <= i < once.len() && 0 <= j < once.len() && i != j && once[i].active && once[j].active
            implies once[i].target != once[j].target by {
            if i < rows.len() && j < rows.len() {
                assert(once[i] == rows[i] && once[j] == rows[j]);
            } else if i < rows.len() {
                assert(once[i] == rows[i]);
            } else {
                assert(once[j] == rows[j]);
            }
        }
    }
    assert(target_taken(once, target)) by {
        if !target_taken(rows, target) {
            assert(once[rows.len() as int] == row);
        }
    }
}

/// Staging a file whose target no active record claims adds one active
/// staged record; linking it makes that record linked; unlinking it makes
/// it unlinked and inactive. No other record changes along the way.
pub proof fn lemma_lifecycle_records(
    rows: Seq<RecordView>,
    source: Seq<char>,
    target: Seq<char>,
    profile: Option<Seq<char>>,
)
    requires
        active_targets_unique(rows),
        !target_taken(rows, target),
    ensures
        ({
            let n = rows.len() as int;
            let staged = inserted(rows, new_row(source, target, profile, DotFileStatus::Staged));
            let linked = crate::registry::updated(
                staged,
                Query::ActiveSourceTarget(source, target),
                Change::SetStatus(DotFileStatus::Linked),
            );
            let unlinked = crate::registry::updated(
                linked,
                Query::ActiveTarget(target),
                Change::DeactivateAs(DotFileStatus::Unlinked),
            );
            &&& staged == rows.push(new_row(source, target, profile, DotFileStatus::Staged))
            &&& linked.len() == n + 1 && linked[n] == new_row(
                source,
                target,
                profile,
                DotFileStatus::Linked,
            )
            &&& unlinked.len() == n + 1 && unlinked[n] == (RecordView {
                source,
                target,
                profile,
                status: DotFileStatus::Unlinked,
                active: false,
            })
            &&& forall|i: int| 0 <= i < n ==> linked[i] == rows[i] && unlinked[i] == rows[i]
        }),
{
    let n = rows.len() as int;
    let staged = rows.push(new_row(source, target, profile, DotFileStatus::Staged));
    let linked = crate::registry::updated(
        staged,
        Query::ActiveSourceTarget(source, target),
        Change::SetStatus(DotFileStatus::Linked),
    );
    assert forall|i: int| 0 <= i < n implies linked[i] == rows[i] by {
        assert(staged[i] == rows[i]);
    }
    assert forall|i: int| 0 <= i < n implies crate::registry::updated(
        linked,
        Query::ActiveTarget(target),
        Change::DeactivateAs(DotFileStatus::Unlinked),
    )[i] == rows[i] by {
        assert(linked[i] == rows[i]);
    }
}

/// Unstaging everything leaves no active staged record, and doing it again
/// changes nothing and returns nothing.
pub proof fn lemma_unstage_all_idempotent(rows: Seq<RecordView>)
    ensures
        count(unstaged_all(rows), Query::ActiveStaged(None)) == 0,
        select(unstaged_all(rows), Query::ActiveStaged(None)).len() == 0,
        unstaged_all(unstaged_all(rows)) == unstaged_all(rows),
{
    let once = unstaged_all(rows);
    assert forall|i: int| 0 <= i < once.len() implies !selects(Query::ActiveStaged(None), #[trigger] once[i]) by {}
    lemma_count_positive(once, Query::ActiveStaged(None));
    lemma_select_empty(once, Query::ActiveStaged(None));
    assert(unstaged_all(once) =~= once);
}

/// Nothing is selected from rows that the query picks none of.
proof fn lemma_select_empty(rows: Seq<RecordView>, s: Query)
    requires
        forall|i: int| 0 <= i < rows.len() ==> !selects(s, #[trigger] rows[i]),
    ensures
        select(rows, s).len() == 0,
    decreases rows.len(),
{
    if rows.len() > 0 {
        assert(!selects(s, rows[rows.len() - 1]));
        assert forall|i: int| 0 <= i < rows.drop_last().len() implies !selects(s, #[trigger] rows.drop_last()[i]) by {
            assert(rows.drop_last()[i] == rows[i]);
        }
        lemma_select_empty(rows.drop_last(), s);
    }
}

/// Marks the active records of these targets as removed; returns how many.
pub fn deactivate_dotfiles(config: &mut Config, targets: &Vec<String>) -> (n: usize)
    requires
        old(config).wf(),
    ensures
        final(config).wf(),
        final(config).rows() == crate::registry::updated(
            old(config).rows(),
            Query::ActiveTargetIn(crate::registry::targets_of(targets@)),
            Change::Deactivate,
        ),
        n == count(old(config).rows(), Query::ActiveTargetIn(crate::registry::targets_of(targets@))),
{
    let sel = Selector::ActiveTargetIn(clone_lines(targets));
    assert(crate::registry::targets_of(targets@) == line_views(targets@));
    config.change_rows(&sel, Change::Deactivate)
}

/// Deletes every record, active or not, whose source or target is the
/// folder or, when `recursive`, lies anywhere below it; returns how many.
pub fn purge_dotfiles_in_folder(config: &mut Config, folder: &str, recursive: bool) -> (n: usize)
    requires
        old(config).wf(),
    ensures
        final(config).wf(),
        final(config).rows() == without(old(config).rows(), Query::InFolder(folder@, recursive)),
        n == count(old(config).rows(), Query::InFolder(folder@, recursive)),
{
    let sel = Selector::InFolder(owned(folder), recursive);
    proof {
        lemma_without_unique(config.rows(), sel@);
    }
    remove_rows(&mut config.dotfiles, &sel)
}

/// The records, active or not, whose source or target is the folder or,
/// when `recursive`, lies anywhere below it.
pub fn get_dotfiles_in_folder(config: &Config, folder: &str, recursive: bool) -> (r: Vec<DotFile>)
    ensures
        dotfile_views(r@) == select(config.rows(), Query::InFolder(folder@, recursive)),
{
    select_rows(&config.dotfiles, &Selector::InFolder(owned(folder), recursive))
}

/// The default target path of the configuration.
pub fn read_default_path(config: &Config) -> (r: String)
    ensures
        r@ == match config.default_path {
            Some(p) => trimmed(p@),
            None => DEFAULT_TARGET_PATH@,
        },
{
    config.read_default_path()
}

/// The approved file types of the configuration.
pub fn get_file_types(config: &Config) -> (r: Vec<String>)
    ensures
        line_views(r@) == line_views(config.filetypes@),
{
    config.list_filetypes()
}

/// The ignored paths of the configuration.
pub fn get_ignored_paths(config: &Config) -> (r: Vec<String>)
    ensures
        line_views(r@) == line_views(config.ignored_paths@),
{
    config.list_ignored_paths()
}

/// Registers a managed folder in the configuration (see
/// [`Config::add_managed_folder`]).
pub fn add_managed_folder(
    config: &mut Config,
    name: &str,
    path: &str,
    home: Option<&str>,
    cwd: &str,
) -> (added: bool)
    ensures
        added == !has_folder_named(parse_folders(line_views(old(config).managed_folders@)), name@),
        added ==> line_views(final(config).managed_folders@) == line_views(
            old(config).managed_folders@,
        ).push(name@ + seq![':'] + normalized(path@, opt_str(home), cwd@)),
        !added ==> final(config).managed_folders == old(config).managed_folders,
        final(config).dotfiles == old(config).dotfiles,
{
    config.add_managed_folder(name, path, home, cwd)
}

/// The active managed folder of the configuration.
pub fn get_active_managed_folder(config: &Config) -> (r: Option<(String, String)>)
    ensures
        match active_folder(parse_folders(line_views(config.managed_folders@))) {
            Some(f) => match r {
                Some(p) => (p.0@, p.1@) == f,
                None => false,
            },
            None => r is None,
        },
{
    config.get_active_managed_folder()
}

/// Why the registry refused a change.
#[derive(Debug, Clone, Copy, PartialEq, Eq, Structural)]
pub enum RegistryError {
    /// An active record already claims the target.
    TargetTaken,
}

} // verus!
