//! The restore / revert workflow as plans of file actions: `restore` backs
//! up the encrypted `data/` and the manager script, writes plain data and
//! patches the script; `revert` puts the backups back.

use vstd::prelude::*;

verus! {

/// One step on the game directory, carried out by the caller.
#[derive(Clone, Copy, Debug, PartialEq, Eq, Structural)]
pub enum FileAction {
    /// Rename `data/` to `data.encrypted/`.
    BackUpData,
    /// Create `data/` and write the decrypted files of `data.encrypted/` into it.
    WritePlainData,
    /// Copy the manager script to its `.bak` file.
    BackUpManager,
    /// Patch the manager script in place.
    PatchManager,
    /// Remove `data/`.
    RemoveData,
    /// Rename `data.encrypted/` back to `data/`.
    RestoreData,
    /// Copy the `.bak` file over the manager script.
    RestoreManager,
    /// Remove the `.bak` file of the manager script.
    RemoveManagerBackup,
}

/// Why `restore` refuses to start.
#[derive(Clone, Copy, Debug, PartialEq, Eq, Structural)]
pub enum RestoreError {
    /// `data/` is not a directory.
    DataDirMissing,
    /// The manager script is not a file.
    ManagerMissing,
    /// `data.encrypted/` already exists: a restore was not reverted.
    BackupExists,
}

/// Why `revert` has nothing to do.
#[derive(Clone, Copy, Debug, PartialEq, Eq, Structural)]
pub enum RevertError {
    /// Neither `data.encrypted/` nor the manager backup exists.
    NothingToRevert,
}

/// Why `patch-js` refuses to start.
#[derive(Clone, Copy, Debug, PartialEq, Eq, Structural)]
pub enum PatchJsError {
    /// The manager script is not a file.
    ManagerMissing,
}

/// The steps of `restore`, after its checks in order.
pub open spec fn restore_actions(has_data_dir: bool, has_manager: bool, backup_exists: bool) -> Result<Seq<FileAction>, RestoreError> {
    if !has_data_dir {
        Err(RestoreError::DataDirMissing)
    } else if !has_manager {
        Err(RestoreError::ManagerMissing)
    } else if backup_exists {
        Err(RestoreError::BackupExists)
    } else {
        Ok(seq![FileAction::BackUpData, FileAction::WritePlainData, FileAction::BackUpManager, FileAction::PatchManager])
    }
}

/// The steps of `revert`: the data backup replaces `data/` (removed first if
/// present), and the manager backup replaces the script and is removed.
pub open spec fn revert_actions(data_backup_is_dir: bool, manager_backup_is_file: bool, data_exists: bool) -> Result<Seq<FileAction>, RevertError> {
    if !data_backup_is_dir && !manager_backup_is_file {
        Err(RevertError::NothingToRevert)
    } else {
        let data_steps = if data_backup_is_dir {
            if data_exists {
                seq![FileAction::RemoveData, FileAction::RestoreData]
            } else {
                seq![FileAction::RestoreData]
            }
        } else {
            Seq::<FileAction>::empty()
        };
        let manager_steps = if manager_backup_is_file {
            seq![FileAction::RestoreManager, FileAction::RemoveManagerBackup]
        } else {
            Seq::<FileAction>::empty()
        };
        Ok(data_steps + manager_steps)
    }
}

/// The steps of `patch-js`: back up the script unless a backup already
/// exists (which is kept as it is), then patch it.
pub open spec fn patch_js_actions(has_manager: bool, backup_exists: bool) -> Result<Seq<FileAction>, PatchJsError> {
    if !has_manager {
        Err(PatchJsError::ManagerMissing)
    } else if backup_exists {
        Ok(seq![FileAction::PatchManager])
    } else {
        Ok(seq![FileAction::BackUpManager, FileAction::PatchManager])
    }
}

/// Plans `restore` from what the file system shows.
pub fn plan_restore(has_data_dir: bool, has_manager: bool, backup_exists: bool) -> (r: Result<Vec<FileAction>, RestoreError>)
    ensures
        match r {
            Ok(v) => restore_actions(has_data_dir, has_manager, backup_exists) == Ok::<Seq<FileAction>, RestoreError>(v@),
            Err(e) => restore_actions(has_data_dir, has_manager, backup_exists) == Err::<Seq<FileAction>, RestoreError>(e),
        },
{
    if !has_data_dir {
        return Err(RestoreError::DataDirMissing);
    }
    if !has_manager {
        return Err(RestoreError::ManagerMissing);
    }
    if backup_exists {
        return Err(RestoreError::BackupExists);
    }
    let v = vec![FileAction::BackUpData, FileAction::WritePlainData, FileAction::BackUpManager, FileAction::PatchManager];
    proof {
        assert(v@ =~= seq![FileAction::BackUpData, FileAction::WritePlainData, FileAction::BackUpManager, FileAction::PatchManager]);
    }
    Ok(v)
}

/// Plans `revert` from what the file system shows.
pub fn plan_revert(data_backup_is_dir: bool, manager_backup_is_file: bool, data_exists: bool) -> (r: Result<Vec<FileAction>, RevertError>)
    ensures
        match r {
            Ok(v) => revert_actions(data_backup_is_dir, manager_backup_is_file, data_exists) == Ok::<Seq<FileAction>, RevertError>(v@),
            Err(e) => revert_actions(data_backup_is_dir, manager_backup_is_file, data_exists) == Err::<Seq<FileAction>, RevertError>(e),
        },
{
    if !data_backup_is_dir && !manager_backup_is_file {
        return Err(RevertError::NothingToRevert);
    }
    let mut v: Vec<FileAction> = Vec::new();
    if data_backup_is_dir {
        if data_exists {
            v.push(FileAction::RemoveData);
        }
        v.push(FileAction::RestoreData);
    }
    if manager_backup_is_file {
        v.push(FileAction::RestoreManager);
        v.push(FileAction::RemoveManagerBackup);
    }
    proof {
        let expected = revert_actions(data_backup_is_dir, manager_backup_is_file, data_exists);
        assert(expected is Ok);
        assert(v@ =~= expected->Ok_0);
    }
    Ok(v)
}

/// Plans `patch-js` from what the file system shows. An existing backup is
/// never overwritten.
pub fn plan_patch_js(has_manager: bool, backup_exists: bool) -> (r: Result<Vec<FileAction>, PatchJsError>)
    ensures
        match r {
            Ok(v) => patch_js_actions(has_manager, backup_exists) == Ok::<Seq<FileAction>, PatchJsError>(v@),
            Err(e) => patch_js_actions(has_manager, backup_exists) == Err::<Seq<FileAction>, PatchJsError>(e),
        },
{
    if !has_manager {
        return Err(PatchJsError::ManagerMissing);
    }
    if backup_exists {
        let v = vec![FileAction::PatchManager];
        proof {
            assert(v@ =~= seq![FileAction::PatchManager]);
        }
        return Ok(v);
    }
    let v = vec![FileAction::BackUpManager, FileAction::PatchManager];
    proof {
        assert(v@ =~= seq![FileAction::BackUpManager, FileAction::PatchManager]);
    }
    Ok(v)
}

// ── A model of the game directory ───────────────────────────────────────

/// The four entries that the workflow touches, each absent or holding some
/// content (contents are told apart by number).
pub struct GameFiles {
    pub data: Option<int>,
    pub data_backup: Option<int>,
    pub manager: Option<int>,
    pub manager_backup: Option<int>,
}

/// The effect of one action; `plain` is what the decrypted data directory
/// holds and `patched` what the patched script holds.
pub open spec fn apply_action(s: GameFiles, a: FileAction, plain: int, patched: int) -> GameFiles {
    match a {
        FileAction::BackUpData => GameFiles { data: None, data_backup: s.data, ..s },
        FileAction::WritePlainData => GameFiles { data: Some(plain), ..s },
        FileAction::BackUpManager => GameFiles { manager_backup: s.manager, ..s },
        FileAction::PatchManager => GameFiles { manager: Some(patched), ..s },
        FileAction::RemoveData => GameFiles { data: None, ..s },
        FileAction::RestoreData => GameFiles { data: s.data_backup, data_backup: None, ..s },
        FileAction::RestoreManager => GameFiles { manager: s.manager_backup, ..s },
        FileAction::RemoveManagerBackup => GameFiles { manager_backup: None, ..s },
    }
}

/// The effect of a sequence of actions, in order.
pub open spec fn apply_actions(s: GameFiles, actions: Seq<FileAction>, plain: int, patched: int) -> GameFiles
    decreases actions.len(),
{
    if actions.len() == 0 {
        s
    } else {
        apply_actions(apply_action(s, actions[0], plain, patched), actions.drop_first(), plain, patched)
    }
}

/// `revert` undoes `restore`: on a game with `data/` and its manager script
/// and no backups, the restore plan followed by the revert plan (each made
/// from what the directory then shows) leaves every entry as it was,
/// whatever the plain data and the patched script held.
pub proof fn lemma_revert_undoes_restore(s: GameFiles, plain: int, patched: int)
    requires
        s.data is Some,
        s.manager is Some,
        s.data_backup is None,
        s.manager_backup is None,
    ensures
        ({
            let restore = restore_actions(s.data is Some, s.manager is Some, s.data_backup is Some);
            &&& restore is Ok
            &&& {
                let mid = apply_actions(s, restore->Ok_0, plain, patched);
                let revert = revert_actions(mid.data_backup is Some, mid.manager_backup is Some, mid.data is Some);
                &&& revert is Ok
                &&& apply_actions(mid, revert->Ok_0, plain, patched) == s
            }
        }),
{
    let restore = restore_actions(s.data is Some, s.manager is Some, s.data_backup is Some)->Ok_0;
    reveal_with_fuel(apply_actions, 5);
    let mid = apply_actions(s, restore, plain, patched);
    assert(mid.data == Some(plain));
    assert(mid.data_backup == s.data);
    assert(mid.manager_backup == s.manager);
    let revert = revert_actions(mid.data_backup is Some, mid.manager_backup is Some, mid.data is Some)->Ok_0;
    assert(revert =~= seq![FileAction::RemoveData, FileAction::RestoreData, FileAction::RestoreManager, FileAction::RemoveManagerBackup]);
    let end = apply_actions(mid, revert, plain, patched);
    assert(end == s);
}

/// `patch-js` keeps an existing manager backup: run after `restore`, its
/// plan leaves the backup that `restore` made, so `revert` still brings
/// back every entry as it was.
pub proof fn lemma_patch_js_keeps_backup(s: GameFiles, plain: int, patched: int, repatched: int)
    requires
        s.data is Some,
        s.manager is Some,
        s.data_backup is None,
        s.manager_backup is None,
    ensures
        ({
            let restore = restore_actions(true, true, false)->Ok_0;
            let mid = apply_actions(s, restore, plain, patched);
            let pjs = patch_js_actions(mid.manager is Some, mid.manager_backup is Some);
            &&& pjs is Ok
            &&& {
                let after = apply_actions(mid, pjs->Ok_0, plain, repatched);
                let revert = revert_actions(after.data_backup is Some, after.manager_backup is Some, after.data is Some);
                &&& after.manager_backup == s.manager
                &&& revert is Ok
                &&& apply_actions(after, revert->Ok_0, plain, repatched) == s
            }
        }),
{
    reveal_with_fuel(apply_actions, 5);
    let restore = restore_actions(true, true, false)->Ok_0;
    let mid = apply_actions(s, restore, plain, patched);
    assert(mid.manager_backup == s.manager);
    let pjs = patch_js_actions(mid.manager is Some, mid.manager_backup is Some)->Ok_0;
    assert(pjs =~= seq![FileAction::PatchManager]);
    let after = apply_actions(mid, pjs, plain, repatched);
    assert(after.manager_backup == s.manager);
    let revert = revert_actions(after.data_backup is Some, after.manager_backup is Some, after.data is Some)->Ok_0;
    assert(revert =~= seq![FileAction::RemoveData, FileAction::RestoreData, FileAction::RestoreManager, FileAction::RemoveManagerBackup]);
    assert(apply_actions(after, revert, plain, repatched) == s);
}

} // verus!
