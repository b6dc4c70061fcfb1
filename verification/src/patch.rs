//! The loader patch shared by both engine families: the manager script is
//! rewritten so that it decrypts a wrapped file only when the wrapper has a
//! `bid`, and otherwise uses the parsed JSON as it is.

use vstd::prelude::*;

use crate::text::{
    cannot_overlap, contains, contains_exec, lemma_contains_trans, lemma_no_overlap, lemma_replace_inserts,
    lemma_replace_keeps_occurrence, occurs_at, replace_all, replace_all_exec, str_to_chars, string_from_chars,
};

verus! {

/// Why a manager script could not be patched.
#[derive(Clone, Copy, Debug, PartialEq, Eq, Structural)]
pub enum PatchError {
    /// The line that decodes the wrapped payload was not found.
    HookPatternMissing,
    /// The line that parses the decrypted JSON was not found.
    LoadPatternMissing,
}

/// What patching a manager script did.
#[derive(Clone, Debug)]
pub enum PatchOutcome {
    /// The script already accepts plain JSON; nothing to write.
    AlreadyPatched,
    /// The patched script, to be written back.
    Patched(String),
}

/// The texts that identify and rewrite one engine family's loader.
pub struct LoaderPatch {
    /// Present once the script has been patched.
    pub marker: Vec<char>,
    /// The line that decodes the wrapped payload, and its guarded form.
    pub hook_old: Vec<char>,
    pub hook_new: Vec<char>,
    /// The first accepted form of the JSON load line, and its patched form.
    pub load_old: Vec<char>,
    pub load_new: Vec<char>,
    /// The second accepted form of the JSON load line, and its patched form.
    pub alt_load_old: Vec<char>,
    pub alt_load_new: Vec<char>,
}

/// The patch as plain sequences.
pub struct LoaderPatchSpec {
    pub marker: Seq<char>,
    pub hook_old: Seq<char>,
    pub hook_new: Seq<char>,
    pub load_old: Seq<char>,
    pub load_new: Seq<char>,
    pub alt_load_old: Seq<char>,
    pub alt_load_new: Seq<char>,
}

impl LoaderPatch {
    pub open spec fn view(&self) -> LoaderPatchSpec {
        LoaderPatchSpec {
            marker: self.marker@,
            hook_old: self.hook_old@,
            hook_new: self.hook_new@,
            load_old: self.load_old@,
            load_new: self.load_new@,
            alt_load_old: self.alt_load_old@,
            alt_load_new: self.alt_load_new@,
        }
    }

    /// The patterns that are searched for are non-empty.
    pub open spec fn well_formed(&self) -> bool {
        self.hook_old@.len() > 0 && self.load_old@.len() > 0 && self.alt_load_old@.len() > 0
    }
}

/// The result of patching `content`: `Ok(None)` when the marker is already
/// present; otherwise the hook line guarded and then the first load form
/// that occurs (in the order given) closed with the plain-JSON branch;
/// an error when the hook line or both load forms are missing.
pub open spec fn patched_source(p: LoaderPatchSpec, content: Seq<char>) -> Result<Option<Seq<char>>, PatchError> {
    if contains(content, p.marker) {
        Ok(None)
    } else if !contains(content, p.hook_old) {
        Err(PatchError::HookPatternMissing)
    } else {
        let hooked = replace_all(content, p.hook_old, p.hook_new);
        if contains(hooked, p.load_old) {
            Ok(Some(replace_all(hooked, p.load_old, p.load_new)))
        } else if contains(hooked, p.alt_load_old) {
            Ok(Some(replace_all(hooked, p.alt_load_old, p.alt_load_new)))
        } else {
            Err(PatchError::LoadPatternMissing)
        }
    }
}

/// Whether `r` is the outcome that `patched_source` describes.
pub open spec fn outcome_matches(r: Result<PatchOutcome, PatchError>, s: Result<Option<Seq<char>>, PatchError>) -> bool {
    match r {
        Ok(PatchOutcome::AlreadyPatched) => s == Ok::<Option<Seq<char>>, PatchError>(None),
        Ok(PatchOutcome::Patched(t)) => s == Ok::<Option<Seq<char>>, PatchError>(Some(t@)),
        Err(e) => s == Err::<Option<Seq<char>>, PatchError>(e),
    }
}

/// Applies a loader patch to the text of a manager script.
pub fn apply_loader_patch(patch: &LoaderPatch, content: &str) -> (r: Result<PatchOutcome, PatchError>)
    requires
        patch.well_formed(),
    ensures
        outcome_matches(r, patched_source(patch.view(), content@)),
{
    let text = str_to_chars(content);
    if contains_exec(&text, &patch.marker) {
        return Ok(PatchOutcome::AlreadyPatched);
    }
    if !contains_exec(&text, &patch.hook_old) {
        return Err(PatchError::HookPatternMissing);
    }
    let hooked = replace_all_exec(&text, &patch.hook_old, &patch.hook_new);
    if contains_exec(&hooked, &patch.load_old) {
        let out = replace_all_exec(&hooked, &patch.load_old, &patch.load_new);
        Ok(PatchOutcome::Patched(string_from_chars(&out)))
    } else if contains_exec(&hooked, &patch.alt_load_old) {
        let out = replace_all_exec(&hooked, &patch.alt_load_old, &patch.alt_load_new);
        Ok(PatchOutcome::Patched(string_from_chars(&out)))
    } else {
        Err(PatchError::LoadPatternMissing)
    }
}


/// A patch whose result always shows its marker: the guarded hook line holds
/// the marker, and neither load form can overlap the marker.
pub open spec fn patch_is_stable(p: LoaderPatchSpec) -> bool {
    &&& p.hook_old.len() > 0
    &&& p.load_old.len() > 0
    &&& p.alt_load_old.len() > 0
    &&& contains(p.hook_new, p.marker)
    &&& cannot_overlap(p.marker, p.load_old)
    &&& cannot_overlap(p.marker, p.alt_load_old)
}

proof fn lemma_replacement_keeps_marker(hooked: Seq<char>, marker: Seq<char>, load: Seq<char>, load_new: Seq<char>)
    requires
        load.len() > 0,
        contains(hooked, marker),
        cannot_overlap(marker, load),
    ensures
        contains(replace_all(hooked, load, load_new), marker),
{
    let i = choose|i: int| occurs_at(hooked, marker, i);
    assert forall|j: int| occurs_at(hooked, load, j) implies j + load.len() <= i || j >= i + marker.len() by {
        lemma_no_overlap(hooked, marker, i, load, j);
    }
    lemma_replace_keeps_occurrence(hooked, load, load_new, marker, i);
}

/// Patching is idempotent: the script that a patch produces is reported as
/// already patched.
pub proof fn lemma_patch_idempotent(p: LoaderPatchSpec, content: Seq<char>)
    requires
        patch_is_stable(p),
        patched_source(p, content) matches Ok(Some(_)),
    ensures
        patched_source(p, patched_source(p, content)->Ok_0->0) == Ok::<Option<Seq<char>>, PatchError>(None),
{
    let hooked = replace_all(content, p.hook_old, p.hook_new);
    lemma_replace_inserts(content, p.hook_old, p.hook_new);
    lemma_contains_trans(hooked, p.hook_new, p.marker);
    if contains(hooked, p.load_old) {
        lemma_replacement_keeps_marker(hooked, p.marker, p.load_old, p.load_new);
    } else {
        lemma_replacement_keeps_marker(hooked, p.marker, p.alt_load_old, p.alt_load_new);
    }
}

} // verus!
