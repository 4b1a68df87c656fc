use forge_rs::collector::collect_files;
use forge_rs::commands::{init_folder_name, link_candidates, resolve_target, should_link};
use forge_rs::config::{
    add_managed_folder, deactivate_dotfiles, get_active_managed_folder, get_dotfiles_in_folder,
    get_file_types, get_ignored_paths, purge_dotfiles_in_folder, read_default_path, Config,
    RegistryError,
};
use forge_rs::dotfile::{DotFile, DotFileStatus};
use forge_rs::orchestrator::{
    failure_of, plan_delete, plan_delete_untracked, plan_link, plan_purge_cleanup,
    plan_purge_record, plan_remove, plan_stage, plan_unlink, plan_unlink_untracked,
    plan_unstage, OpError,
};
use forge_rs::pack_paths::{calculate_install_target_path, calculate_restore_target_path};
use forge_rs::plan::{FsOp, PathKind, Step};
use forge_rs::registry::DotFileRecord;
use forge_rs::utils::{
    format_dotfile_line, format_dotfile_status, get_version, list_command, status_from_key,
    status_to_key,
};

fn s(x: &str) -> String {
    x.to_string()
}

fn rec_of(c: &Config, target: &str) -> DotFile {
    c.find_dotfile_by_target(target).unwrap()
}

fn empty_config() -> Config {
    Config::new(None, vec![], vec![], vec![])
}

fn ops(steps: &[Step]) -> Vec<String> {
    steps
        .iter()
        .map(|st| {
            let m = if st.must_succeed { "!" } else { "?" };
            let o = match &st.op {
                FsOp::Confirm(_) => "confirm".to_string(),
                FsOp::ConfirmText(_, t) => format!("confirm-text {}", t),
                FsOp::RemoveFile(p) => format!("rm {}", p),
                FsOp::Rename(a, b) => format!("mv {} {}", a, b),
                FsOp::Copy(a, b) => format!("cp {} {}", a, b),
                FsOp::CheckSameSize(a, b) => format!("same-size {} {}", a, b),
                FsOp::CheckAbsent(p) => format!("absent {}", p),
                FsOp::Symlink(a, b) => format!("ln {} {}", a, b),
                FsOp::CreateDirAll(p) => format!("mkdir {}", p),
                FsOp::CreateParentDirs(p) => format!("mkparent {}", p),
                FsOp::RemoveEmptyDirs(p) => format!("rmdirs {}", p),
            };
            format!("{}{}", m, o)
        })
        .collect()
}

#[test]
fn dotfile_constructors_and_status() {
    let mut d = DotFile::new(s("/h/.bashrc"), s("/f/.bashrc"), None);
    assert!(d.is_staged());
    assert!(!d.is_linked());
    d.set_status(DotFileStatus::Linked);
    assert!(d.is_linked());
    let u = DotFile::with_status(s("a"), s("b"), Some(s("work")), DotFileStatus::Unlinked);
    assert!(u.is_unlinked());
    assert_eq!(u.profile, Some(s("work")));
}

#[test]
fn status_labels_and_keys() {
    assert_eq!(format_dotfile_status(DotFileStatus::Staged), "Staged");
    assert_eq!(format_dotfile_status(DotFileStatus::Linked), "Linked");
    assert_eq!(format_dotfile_status(DotFileStatus::Unlinked), "Unlinked");
    assert_eq!(status_to_key(DotFileStatus::Linked), "linked");
    assert_eq!(status_from_key("unlinked"), Some(DotFileStatus::Unlinked));
    assert_eq!(status_from_key("staged"), Some(DotFileStatus::Staged));
    assert_eq!(status_from_key("garbage"), None);
    assert_eq!(get_version(), "0.1.0");
}

#[test]
fn default_path_is_trimmed_or_defaulted() {
    let c = empty_config();
    assert_eq!(read_default_path(&c), "~/.forge");
    let mut c = Config::new(Some(s("  /srv/dots \n")), vec![], vec![], vec![]);
    assert_eq!(c.read_default_path(), "/srv/dots");
    c.set_default_path("/x");
    assert_eq!(c.read_default_path(), "/x");
}

#[test]
fn filetypes_are_trimmed_and_deduplicated() {
    let mut c = empty_config();
    c.add_filetypes(&vec![s(" .vimrc "), s(""), s(".zshrc"), s(".vimrc")]);
    assert_eq!(get_file_types(&c), vec![s(".vimrc"), s(".zshrc")]);
    c.remove_filetypes(&vec![s(".vimrc "), s("   ")]);
    assert_eq!(c.list_filetypes(), vec![s(".zshrc")]);
}

#[test]
fn ignored_paths_are_deduplicated() {
    let mut c = empty_config();
    c.add_ignored_paths(&vec![s("/a"), s("/b"), s("/a")]);
    assert_eq!(get_ignored_paths(&c), vec![s("/a"), s("/b")]);
    c.remove_ignored_paths(&vec![s("/a")]);
    assert_eq!(c.list_ignored_paths(), vec![s("/b")]);
}

#[test]
fn managed_folders_policy() {
    let mut c = empty_config();
    assert_eq!(get_active_managed_folder(&c), None);
    assert!(c.add_managed_folder("work", "/srv/work", None, "/w"));
    assert!(!add_managed_folder(&mut c, "work", "/elsewhere", None, "/w"));
    assert_eq!(c.managed_folders, vec![s("work:/srv/work")]);
    assert_eq!(c.get_active_managed_folder(), Some((s("work"), s("/srv/work"))));
    assert!(c.add_managed_folder("default", "/srv/./dots/", None, "/w"));
    assert_eq!(c.get_active_managed_folder(), Some((s("default"), s("/srv/dots"))));
    assert_eq!(c.get_managed_folder_by_name("work"), Some(s("/srv/work")));
    assert_eq!(c.get_managed_folder_by_name("none"), None);
    assert!(c.is_managed_folder("/srv/dots"));
    assert!(!c.is_managed_folder("/srv"));
}

#[test]
fn managed_folder_lines_split_at_first_colon() {
    let c = Config::new(None, vec![], vec![], vec![s("a:/x:y"), s("broken"), s("b:")]);
    assert_eq!(c.get_managed_folders(), vec![(s("a"), s("/x:y")), (s("b"), s(""))]);
}

#[test]
fn staging_twice_keeps_one_active_record() {
    let mut c = empty_config();
    assert_eq!(c.stage_dotfile("/h/.bashrc", "/f/.bashrc", None), Ok(()));
    assert_eq!(
        c.stage_dotfile("/h/.bashrc", "/f/.bashrc", None),
        Err(RegistryError::TargetTaken)
    );
    let active = c.get_dotfiles(None);
    assert_eq!(active.len(), 1);
    assert_eq!(active[0].status, DotFileStatus::Staged);
}

#[test]
fn unstage_all_twice_is_a_no_op() {
    let mut c = empty_config();
    c.stage_dotfile("/h/a", "/f/a", None).unwrap();
    c.stage_dotfile("/h/b", "/f/b", Some("work")).unwrap();
    c.add_dotfile("/h/c", "/f/c", None).unwrap();
    let first = c.unstage_all();
    assert_eq!(first.len(), 2);
    assert_eq!(c.get_staged_dotfiles(None).len(), 0);
    let second = c.unstage_all();
    assert_eq!(second.len(), 0);
    assert_eq!(c.get_dotfiles(None).len(), 1);
}

#[test]
fn registry_queries_and_updates() {
    let mut c = empty_config();
    c.stage_dotfile("/h/a", "/f/a", Some("work")).unwrap();
    c.stage_dotfile("/h/b", "/f/b", None).unwrap();
    assert_eq!(c.get_dotfiles(Some("work")).len(), 1);
    assert_eq!(c.link_dotfile("/h/a", "/f/a"), 1);
    assert_eq!(c.link_dotfile("/h/a", "/f/zzz"), 0);
    assert!(c.find_dotfile_by_target("/f/a").unwrap().is_linked());
    assert_eq!(c.find_dotfile_by_source("/h/b").unwrap().target, "/f/b");
    assert!(c.deactivate_dotfile("/f/b"));
    assert!(!c.deactivate_dotfile("/f/b"));
    assert!(c.find_dotfile_by_target("/f/b").is_none());
    assert!(c.remove_dotfile("/f/b"));
    assert!(!c.remove_dotfile("/f/b"));
    assert!(c.unlink_dotfile("/f/a"));
    assert!(c.get_dotfiles(None).is_empty());
    assert_eq!(get_dotfiles_in_folder(&c, "/f", true)[0].status, DotFileStatus::Unlinked);
}

#[test]
fn batch_deactivate_and_purge() {
    let mut c = empty_config();
    c.stage_dotfile("/h/a", "/f/a", None).unwrap();
    c.stage_dotfile("/h/b", "/f/sub/b", None).unwrap();
    c.stage_dotfile("/h/c", "/g/c", None).unwrap();
    assert_eq!(deactivate_dotfiles(&mut c, &vec![s("/f/a"), s("/g/c"), s("/none")]), 2);
    assert_eq!(c.get_dotfiles(None).len(), 1);
    assert_eq!(get_dotfiles_in_folder(&c, "/f", false).len(), 0);
    assert_eq!(get_dotfiles_in_folder(&c, "/f/a", false).len(), 1);
    assert_eq!(get_dotfiles_in_folder(&c, "/f", true).len(), 2);
    assert_eq!(purge_dotfiles_in_folder(&mut c, "/f", true), 2);
    assert_eq!(get_dotfiles_in_folder(&c, "/", true).len(), 1);
}

#[test]
fn load_record_refuses_a_second_active_target() {
    let mut c = empty_config();
    let rec = |active| DotFileRecord {
        source: s("/h/a"),
        target: s("/f/a"),
        profile: None,
        status: DotFileStatus::Linked,
        active,
    };
    assert!(c.load_record(rec(true)));
    assert!(!c.load_record(rec(true)));
    assert!(c.load_record(rec(false)));
}

#[test]
fn stage_plan_and_errors() {
    let mut c = empty_config();
    let src = s("/h/.bashrc");
    let tgt = s("/f/.bashrc");
    assert_eq!(
        plan_stage(&c, &src, PathKind::Missing, &tgt, PathKind::Missing).err(),
        Some(OpError::NotFound)
    );
    assert_eq!(
        plan_stage(&c, &src, PathKind::File, &tgt, PathKind::Symlink).err(),
        Some(OpError::AlreadyExists)
    );
    let steps = plan_stage(&c, &src, PathKind::File, &tgt, PathKind::Missing).unwrap();
    assert_eq!(ops(&steps), vec!["!mkparent /f/.bashrc", "!ln /f/.bashrc /h/.bashrc"]);
    c.stage_dotfile(&src, &tgt, None).unwrap();
    assert_eq!(
        plan_stage(&c, &src, PathKind::File, &tgt, PathKind::Missing).err(),
        Some(OpError::AlreadyExists)
    );
    let d = plan_stage(&empty_config(), &s("/h/dir"), PathKind::Dir, &s("/f/dir"), PathKind::Missing)
        .unwrap();
    assert_eq!(ops(&d), vec!["!mkdir /f/dir"]);
}

#[test]
fn link_plan_validates_before_removing_original() {
    let d = DotFile::new(s("/h/.bashrc"), s("/f/.bashrc"), None);
    let steps = plan_link(&d, PathKind::File, PathKind::Symlink);
    assert_eq!(
        ops(&steps),
        vec![
            "!rm /f/.bashrc",
            "!mkparent /f/.bashrc",
            "!cp /h/.bashrc /f/.bashrc",
            "!same-size /h/.bashrc /f/.bashrc",
            "!rm /h/.bashrc",
            "!absent /h/.bashrc",
            "!ln /h/.bashrc /f/.bashrc",
        ]
    );
    let kept = plan_link(&d, PathKind::File, PathKind::File);
    assert_eq!(ops(&kept)[0], "!absent /f/.bashrc.bak");
    assert_eq!(ops(&kept)[1], "!mv /f/.bashrc /f/.bashrc.bak");
    assert!(plan_link(&d, PathKind::Dir, PathKind::Missing).is_empty());
    assert_eq!(failure_of(&steps[3].op), OpError::ValidationFailed);
    assert_eq!(failure_of(&steps[0].op), OpError::IoFailure);
}

#[test]
fn unlink_remove_delete_plans() {
    let d = DotFile::with_status(s("/h/a"), s("/f/a"), None, DotFileStatus::Linked);
    let tmp = s("/h/a.tmp");
    assert_eq!(
        ops(&plan_unlink(&d, &tmp, false)),
        vec!["!confirm", "!absent /h/a.tmp", "!cp /f/a /h/a.tmp", "!rm /h/a", "!mv /h/a.tmp /h/a"]
    );
    match &plan_unlink(&d, &tmp, false)[0].op {
        FsOp::Confirm(m) => assert!(m.contains("/h/a")),
        _ => panic!("the first step asks for confirmation"),
    }
    assert_eq!(plan_unlink(&d, &tmp, true).len(), 4);
    assert_eq!(ops(&plan_unlink_untracked(&s("/h/l"), PathKind::Symlink, true)), vec!["!rm /h/l"]);
    assert!(plan_unlink_untracked(&s("/h/l"), PathKind::File, true).is_empty());
    assert_eq!(ops(&plan_remove(&d, PathKind::File, &tmp, true)), vec!["!rm /f/a"]);
    assert_eq!(plan_remove(&d, PathKind::Symlink, &tmp, false).len(), 6);
    assert_eq!(
        ops(&plan_delete(&d, false)),
        vec!["!confirm-text DELETE", "?rm /h/a", "!rm /f/a"]
    );
    assert_eq!(ops(&plan_delete_untracked(&s("/x"), true)), vec!["!rm /x"]);
    assert_eq!(ops(&plan_unstage(&d)), vec!["?rm /f/a"]);
    assert_eq!(failure_of(&FsOp::Confirm(s("q"))), OpError::UserDeclined);
}

#[test]
fn purge_plan_restores_linked_original() {
    // A folder holding one linked record: the original comes back before
    // the managed copy and the record go.
    let mut c = empty_config();
    c.add_dotfile("/h/.vimrc", "/f/.vimrc", None).unwrap();
    let records = get_dotfiles_in_folder(&c, "/f", true);
    assert_eq!(records.len(), 1);
    let tmp = s("/h/.vimrc.forge-restore");
    let steps = plan_purge_record(&records[0], &Some(s("/f/.vimrc")), &tmp);
    assert_eq!(
        ops(&steps),
        vec![
            "!absent /h/.vimrc.forge-restore",
            "!cp /f/.vimrc /h/.vimrc.forge-restore",
            "!rm /h/.vimrc",
            "!mv /h/.vimrc.forge-restore /h/.vimrc",
            "?rm /f/.vimrc",
        ]
    );
    assert_eq!(ops(&plan_purge_record(&records[0], &None, &tmp)), vec!["?rm /f/.vimrc"]);
    assert_eq!(purge_dotfiles_in_folder(&mut c, "/f", true), 1);
    assert!(c.get_dotfiles(None).is_empty());
    assert_eq!(ops(&plan_purge_cleanup(&s("/f"))), vec!["?rmdirs /f"]);
}

#[test]
fn stage_link_unlink_scenario() {
    let mut c = empty_config();
    c.add_managed_folder("default", "/srv/dots", None, "/w");
    let (_, forge) = c.get_active_managed_folder().unwrap();
    let src = s("/home/ann/.bashrc");
    let tgt = resolve_target(&forge, ".bashrc").unwrap();
    assert_eq!(tgt, "/srv/dots/.bashrc");
    let steps = plan_stage(&c, &src, PathKind::File, &tgt, PathKind::Missing).unwrap();
    assert_eq!(ops(&steps)[1], "!ln /srv/dots/.bashrc /home/ann/.bashrc");
    c.stage_dotfile(&src, &tgt, None).unwrap();
    assert_eq!(c.find_dotfile_by_source(&src).unwrap().status, DotFileStatus::Staged);
    let picked = link_candidates(&c, &forge, &vec![]);
    assert_eq!(picked.len(), 1);
    let link = plan_link(&picked[0], PathKind::File, PathKind::Symlink);
    assert_eq!(ops(&link)[6], "!ln /home/ann/.bashrc /srv/dots/.bashrc");
    assert_eq!(c.complete_link(&rec_of(&c, &tgt), Err(OpError::ValidationFailed)), Err(OpError::ValidationFailed));
    assert!(c.find_dotfile_by_target(&tgt).unwrap().is_staged());
    assert_eq!(c.complete_link(&rec_of(&c, &tgt), Ok(())), Ok(()));
    assert!(c.find_dotfile_by_target(&tgt).unwrap().is_linked());
    let rec = c.find_dotfile_by_target(&tgt).unwrap();
    let tmp = s("/home/ann/.bashrc.forge-restore");
    assert_eq!(ops(&plan_unlink(&rec, &tmp, true))[3], "!mv /home/ann/.bashrc.forge-restore /home/ann/.bashrc");
    assert_eq!(c.complete_unlink(&tgt, Ok(())), Ok(()));
    assert!(c.find_dotfile_by_target(&tgt).is_none());
    let all = get_dotfiles_in_folder(&c, "/srv/dots", true);
    assert_eq!(all[0].status, DotFileStatus::Unlinked);
}

#[test]
fn link_candidates_by_argument() {
    let mut c = empty_config();
    c.stage_dotfile("/h/cfg/a", "/f/cfg/a", None).unwrap();
    c.stage_dotfile("/h/cfg/sub/b", "/f/cfg/sub/b", None).unwrap();
    c.add_dotfile("/h/x", "/f/x", None).unwrap();
    c.stage_dotfile("/h/y", "/other/y", None).unwrap();
    assert_eq!(link_candidates(&c, "/f", &vec![(s("/h/cfg"), true)]).len(), 2);
    assert_eq!(link_candidates(&c, "/f", &vec![(s("/f/cfg/a"), false)])[0].source, "/h/cfg/a");
    assert_eq!(link_candidates(&c, "/f", &vec![(s("/h/cfg/sub/b"), false)]).len(), 1);
    assert!(link_candidates(&c, "/f", &vec![(s("/h/x"), false)]).is_empty());
    assert_eq!(link_candidates(&c, "/f", &vec![]).len(), 2);
    assert_eq!(link_candidates(&c, "/other", &vec![]).len(), 1);
}

#[test]
fn unstage_by_path() {
    let mut c = empty_config();
    c.stage_dotfile("/h/a", "/f/a", None).unwrap();
    c.stage_dotfile("/h/b", "/f/b", None).unwrap();
    assert_eq!(c.unstage_path("/f/a").len(), 1);
    assert_eq!(c.unstage_path("/h/b").len(), 1);
    assert_eq!(c.unstage_path("/h/b").len(), 0);
    assert!(c.get_staged_dotfiles(None).is_empty());
}

#[test]
fn depth_limit_one_takes_first_level_only() {
    let files = vec![s("/h/config/file1.conf"), s("/h/config/subdir/file2.conf"), s("/elsewhere/x")];
    let one = collect_files("/h/config", &files, Some(1));
    assert_eq!(one, vec![(s("/h/config/file1.conf"), s("config/file1.conf"))]);
    let all = collect_files("/h/config", &files, None);
    assert_eq!(all.len(), 2);
    assert_eq!(all[1].1, "config/subdir/file2.conf");
    assert_eq!(collect_files("/h/config", &files, Some(0)).len(), 2);
    assert_eq!(collect_files("/h/config", &files, Some(2)).len(), 2);
}

#[test]
fn folder_name_and_targets() {
    assert_eq!(init_folder_name(Some("dots"), "/srv/x"), Some(s("dots")));
    assert_eq!(init_folder_name(None, "/srv/x"), Some(s("x")));
    assert_eq!(init_folder_name(None, "/"), None);
    assert_eq!(resolve_target("/f", "/abs/y"), Some(s("/abs/y")));
    assert_eq!(resolve_target("/f", "rel/y"), Some(s("/f/y")));
    assert_eq!(resolve_target("/f", ".."), None);
}

#[test]
fn profile_link_filter() {
    let types = vec![s(".conf"), s(".lua")];
    let ignored = vec![s("/p/skip.conf")];
    assert!(should_link(&s("/p/a.conf"), &types, &ignored));
    assert!(!should_link(&s("/p/skip.conf"), &types, &ignored));
    assert!(!should_link(&s("/p/.bashrc"), &types, &ignored));
    assert!(!should_link(&s("/p/a.txt"), &types, &ignored));
    assert!(should_link(&s("/p/init.lua"), &types, &ignored));
}

#[test]
fn listing_lines() {
    let mut c = empty_config();
    c.stage_dotfile("/h/a", "/f/a", Some("work")).unwrap();
    c.add_dotfile("/h/b", "/f/b", None).unwrap();
    let lines = list_command(&c, None);
    assert_eq!(lines, vec![s("  [Staged] /h/a -> /f/a (profile: work)"), s("  [Linked] /h/b -> /f/b")]);
    assert_eq!(list_command(&c, Some("work")).len(), 1);
    let d = DotFile::new(s("x"), s("y"), None);
    assert_eq!(format_dotfile_line(&d), "  [Staged] x -> y");
}

#[derive(Clone, Debug, PartialEq)]
enum Node {
    File(Vec<u8>),
    Link(String),
}

/// Runs a plan on an in-memory filesystem; `bad_copy` truncates copies.
fn simulate(fs: &mut std::collections::HashMap<String, Node>, steps: &[Step], bad_copy: bool) -> Result<(), usize> {
    let read = |fs: &std::collections::HashMap<String, Node>, p: &str| -> Option<Vec<u8>> {
        match fs.get(p) {
            Some(Node::File(c)) => Some(c.clone()),
            Some(Node::Link(q)) => match fs.get(q) {
                Some(Node::File(c)) => Some(c.clone()),
                _ => None,
            },
            None => None,
        }
    };
    for (i, st) in steps.iter().enumerate() {
        let ok = match &st.op {
            FsOp::Confirm(_) | FsOp::ConfirmText(_, _) => true,
            FsOp::RemoveFile(p) => fs.remove(p).is_some(),
            FsOp::Rename(a, b) => match fs.remove(a) {
                Some(n) => {
                    fs.insert(b.clone(), n);
                    true
                }
                None => false,
            },
            FsOp::Copy(a, b) => match read(fs, a) {
                Some(mut c) => {
                    if bad_copy {
                        c.truncate(c.len() / 2);
                    }
                    let dest = match fs.get(b) {
                        Some(Node::Link(q)) => q.clone(),
                        _ => b.clone(),
                    };
                    fs.insert(dest, Node::File(c));
                    true
                }
                None => false,
            },
            FsOp::CheckSameSize(a, b) => match (read(fs, a), read(fs, b)) {
                (Some(x), Some(y)) => x.len() == y.len(),
                _ => false,
            },
            FsOp::CheckAbsent(p) => !fs.contains_key(p),
            FsOp::Symlink(l, to) => {
                if fs.contains_key(l) {
                    false
                } else {
                    fs.insert(l.clone(), Node::Link(to.clone()));
                    true
                }
            }
            _ => true,
        };
        if !ok && st.must_succeed {
            return Err(i);
        }
    }
    Ok(())
}

fn kind(fs: &std::collections::HashMap<String, Node>, p: &str) -> PathKind {
    match fs.get(p) {
        Some(Node::File(c)) if c.is_empty() => PathKind::EmptyFile,
        Some(Node::File(_)) => PathKind::File,
        Some(Node::Link(_)) => PathKind::Symlink,
        None => PathKind::Missing,
    }
}

#[test]
fn round_trip_restores_the_original_bytes() {
    let mut fs = std::collections::HashMap::new();
    let original = b"export PATH=$HOME/bin:$PATH\n".to_vec();
    fs.insert(s("/home/ann/.bashrc"), Node::File(original.clone()));
    let mut c = empty_config();
    let src = s("/home/ann/.bashrc");
    let tgt = s("/srv/dots/.bashrc");
    let st = plan_stage(&c, &src, kind(&fs, &src), &tgt, kind(&fs, &tgt)).unwrap();
    assert_eq!(simulate(&mut fs, &st, false), Ok(()));
    c.stage_dotfile(&src, &tgt, None).unwrap();
    assert_eq!(fs.get(&tgt), Some(&Node::Link(src.clone())));
    let rec = c.find_dotfile_by_target(&tgt).unwrap();
    let ln = plan_link(&rec, kind(&fs, &src), kind(&fs, &tgt));
    assert_eq!(simulate(&mut fs, &ln, false), Ok(()));
    assert_eq!(fs.get(&src), Some(&Node::Link(tgt.clone())));
    assert_eq!(fs.get(&tgt), Some(&Node::File(original.clone())));
    let un = plan_unlink(&rec, &s("/home/ann/.bashrc.forge-restore"), true);
    assert_eq!(simulate(&mut fs, &un, false), Ok(()));
    assert_eq!(fs.get(&src), Some(&Node::File(original)));
}

#[test]
fn failed_copy_validation_keeps_the_original() {
    let mut fs = std::collections::HashMap::new();
    let original = b"set number\n".to_vec();
    let src = s("/home/ann/.vimrc");
    let tgt = s("/srv/dots/.vimrc");
    fs.insert(src.clone(), Node::File(original.clone()));
    fs.insert(tgt.clone(), Node::Link(src.clone()));
    let rec = DotFile::new(src.clone(), tgt.clone(), None);
    let ln = plan_link(&rec, kind(&fs, &src), kind(&fs, &tgt));
    assert_eq!(simulate(&mut fs, &ln, true), Err(3));
    assert_eq!(failure_of(&ln[3].op), OpError::ValidationFailed);
    assert_eq!(fs.get(&src), Some(&Node::File(original)));
}

#[test]
fn pack_install_and_restore_targets() {
    let home = Some("/home/bob");
    assert_eq!(
        calculate_install_target_path("/home/bob/.config/nvim/init.lua", Some("/t"), true, home, "/w"),
        Some(s("/t/.config/nvim/init.lua"))
    );
    assert_eq!(
        calculate_install_target_path("/etc/hosts", Some("/t"), true, home, "/w"),
        Some(s("/t/hosts"))
    );
    assert_eq!(
        calculate_install_target_path("rel/x.conf", Some("/t"), false, home, "/w"),
        Some(s("/t/rel/x.conf"))
    );
    assert_eq!(
        calculate_install_target_path("/home/ann/.bashrc", None, true, home, "/w"),
        Some(s("/home/bob/.bashrc"))
    );
    assert_eq!(
        calculate_install_target_path("/opt/app.conf", None, true, home, "/w"),
        Some(s("/home/bob/app.conf"))
    );
    assert_eq!(calculate_install_target_path("/opt/app.conf", None, true, None, "/w"), None);
    assert_eq!(
        calculate_install_target_path("/opt/app.conf", None, false, home, "/w"),
        Some(s("/w/app.conf"))
    );
    assert_eq!(calculate_install_target_path("/", None, false, home, "/w"), None);
    assert_eq!(calculate_restore_target_path("/etc/hosts", false, "/w"), Some(s("/etc/hosts")));
    assert_eq!(calculate_restore_target_path("/etc/hosts", true, "/w"), Some(s("/w/hosts")));
}

#[test]
fn managed_folder_path_is_normalized() {
    let mut c = empty_config();
    assert!(c.add_managed_folder("rel", "x", Some("/home/ann"), "/w"));
    assert!(c.add_managed_folder("home", "~/dots", Some("/home/ann"), "/w"));
    assert_eq!(c.managed_folders, vec![s("rel:/w/x"), s("home:/home/ann/dots")]);
}

#[test]
fn folder_queries_take_the_folder_itself() {
    let mut c = empty_config();
    c.add_dotfile("/f", "/m/f", None).unwrap();
    c.add_dotfile("/fx/a", "/m/a", None).unwrap();
    assert_eq!(get_dotfiles_in_folder(&c, "/f", false).len(), 1);
    assert_eq!(get_dotfiles_in_folder(&c, "/f", true).len(), 1);
    assert_eq!(purge_dotfiles_in_folder(&mut c, "/f", true), 1);
    assert_eq!(c.get_dotfiles(None).len(), 1);
}

#[test]
fn failed_plans_leave_the_registry_alone() {
    let mut c = empty_config();
    assert_eq!(c.complete_stage("/h/a", "/f/a", None, Err(OpError::IoFailure)), Err(OpError::IoFailure));
    assert!(c.get_dotfiles(None).is_empty());
    assert_eq!(c.complete_stage("/h/a", "/f/a", None, Ok(())), Ok(()));
    assert_eq!(c.complete_stage("/h/a", "/f/a", None, Ok(())), Err(OpError::AlreadyExists));
    assert_eq!(c.complete_unlink("/f/a", Err(OpError::UserDeclined)), Err(OpError::UserDeclined));
    assert!(c.find_dotfile_by_target("/f/a").is_some());
    assert_eq!(c.complete_remove("/f/a", Err(OpError::IoFailure)), Err(OpError::IoFailure));
    assert_eq!(c.complete_remove("/f/a", Ok(())), Ok(()));
    assert!(get_dotfiles_in_folder(&c, "/f", true).is_empty());
}

#[test]
fn unlink_through_an_occupied_temp_path_stops_safely() {
    let mut fs = std::collections::HashMap::new();
    let src = s("/h/.vimrc");
    let tgt = s("/f/.vimrc");
    let tmp = s("/h/.vimrc.forge-restore");
    fs.insert(src.clone(), Node::Link(tgt.clone()));
    fs.insert(tgt.clone(), Node::File(b"x".to_vec()));
    fs.insert(tmp.clone(), Node::Link(s("/elsewhere")));
    let rec = DotFile::with_status(src.clone(), tgt.clone(), None, DotFileStatus::Linked);
    assert_eq!(simulate(&mut fs, &plan_unlink(&rec, &tmp, true), false), Err(0));
    assert_eq!(fs.get(&src), Some(&Node::Link(tgt.clone())));
    assert_eq!(fs.get(&tgt), Some(&Node::File(b"x".to_vec())));
}
