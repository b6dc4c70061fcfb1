use rpgdata_crypt::listing::select_json_files;
use rpgdata_crypt::restore::{plan_patch_js, plan_restore, plan_revert, FileAction, PatchJsError, RestoreError, RevertError};

fn names(v: &[&str]) -> Vec<String> {
    v.iter().map(|s| s.to_string()).collect()
}

#[test]
fn selects_json_files_in_path_order() {
    let got = select_json_files(&names(&[
        "b.json", "a.JSON", "x.txt", "a.json", "noext", ".json", "c.json.bak", "Z.json", "Map010.json", "Map002.json",
    ]));
    assert_eq!(got, names(&["Map002.json", "Map010.json", "Z.json", "a.json", "b.json"]));
}

#[test]
fn selection_matches_pathbuf_sort() {
    let input = names(&["ä.json", "a.json", "ab.json", "a-b.json", "A.json", "a.b.json", "😀.json"]);
    let mut expected: Vec<std::path::PathBuf> =
        input.iter().map(|n| std::path::Path::new("dir").join(n)).collect();
    expected.sort();
    let expected: Vec<String> =
        expected.iter().map(|p| p.file_name().unwrap().to_str().unwrap().to_string()).collect();
    assert_eq!(select_json_files(&input), expected);
}

#[test]
fn selection_of_nothing() {
    assert!(select_json_files(&Vec::new()).is_empty());
    assert!(select_json_files(&names(&["readme.txt"])).is_empty());
}

#[test]
fn restore_plan_steps() {
    assert_eq!(
        plan_restore(true, true, false).unwrap(),
        vec![FileAction::BackUpData, FileAction::WritePlainData, FileAction::BackUpManager, FileAction::PatchManager]
    );
}

#[test]
fn restore_plan_checks_in_order() {
    assert_eq!(plan_restore(false, false, true), Err(RestoreError::DataDirMissing));
    assert_eq!(plan_restore(true, false, true), Err(RestoreError::ManagerMissing));
    assert_eq!(plan_restore(true, true, true), Err(RestoreError::BackupExists));
}

#[test]
fn revert_plan_steps() {
    assert_eq!(
        plan_revert(true, true, true).unwrap(),
        vec![FileAction::RemoveData, FileAction::RestoreData, FileAction::RestoreManager, FileAction::RemoveManagerBackup]
    );
    assert_eq!(plan_revert(true, false, false).unwrap(), vec![FileAction::RestoreData]);
    assert_eq!(
        plan_revert(false, true, true).unwrap(),
        vec![FileAction::RestoreManager, FileAction::RemoveManagerBackup]
    );
    assert_eq!(plan_revert(false, false, true), Err(RevertError::NothingToRevert));
}

#[test]
fn patch_js_plan() {
    assert_eq!(plan_patch_js(true, false).unwrap(), vec![FileAction::BackUpManager, FileAction::PatchManager]);
    assert_eq!(plan_patch_js(true, true).unwrap(), vec![FileAction::PatchManager]);
    assert_eq!(plan_patch_js(false, false), Err(PatchJsError::ManagerMissing));
    assert_eq!(plan_patch_js(false, true), Err(PatchJsError::ManagerMissing));
}

/// A directory of four entries, each absent or holding some content.
#[derive(Clone, Debug, PartialEq)]
struct Dir {
    data: Option<&'static str>,
    data_backup: Option<&'static str>,
    manager: Option<&'static str>,
    manager_backup: Option<&'static str>,
}

fn run(mut d: Dir, plan: &[FileAction]) -> Dir {
    for a in plan {
        match a {
            FileAction::BackUpData => {
                d.data_backup = d.data.take();
            }
            FileAction::WritePlainData => d.data = Some("plain"),
            FileAction::BackUpManager => d.manager_backup = d.manager,
            FileAction::PatchManager => d.manager = Some("patched"),
            FileAction::RemoveData => d.data = None,
            FileAction::RestoreData => d.data = d.data_backup.take(),
            FileAction::RestoreManager => d.manager = d.manager_backup,
            FileAction::RemoveManagerBackup => d.manager_backup = None,
        }
    }
    d
}

#[test]
fn revert_after_restore_restores_every_entry() {
    let start = Dir { data: Some("encrypted"), data_backup: None, manager: Some("unpatched"), manager_backup: None };
    let restore = plan_restore(start.data.is_some(), start.manager.is_some(), start.data_backup.is_some()).unwrap();
    let mid = run(start.clone(), &restore);
    assert_eq!(mid.data, Some("plain"));
    assert_eq!(mid.manager, Some("patched"));
    let revert = plan_revert(mid.data_backup.is_some(), mid.manager_backup.is_some(), mid.data.is_some()).unwrap();
    assert_eq!(run(mid, &revert), start);
}

#[test]
fn patch_js_after_restore_keeps_the_backup() {
    let start = Dir { data: Some("encrypted"), data_backup: None, manager: Some("unpatched"), manager_backup: None };
    let mid = run(start.clone(), &plan_restore(true, true, false).unwrap());
    let after = run(mid.clone(), &plan_patch_js(mid.manager.is_some(), mid.manager_backup.is_some()).unwrap());
    assert_eq!(after.manager_backup, Some("unpatched"));
    let revert = plan_revert(after.data_backup.is_some(), after.manager_backup.is_some(), after.data.is_some()).unwrap();
    assert_eq!(run(after, &revert), start);
}
