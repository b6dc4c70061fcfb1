//! RPG Maker MZ: the manager script `js/rmmz_managers.js` and its patch.

use vstd::prelude::*;

use crate::patch::{
    apply_loader_patch, lemma_patch_idempotent, outcome_matches, patch_is_stable, patched_source, LoaderPatch,
    LoaderPatchSpec, PatchError, PatchOutcome,
};
use crate::text::replace_all;
use crate::text::occurs_at;
use crate::crypto::CryptoParams;
use crate::param_parser::{crypto_params_of, parse_crypto_params, ParamError};
use crate::text::str_to_chars;

verus! {

/// The manager script of an MZ game, relative to the game root.
pub const MANAGERS_JS: &'static str = "js/rmmz_managers.js";
/// Where the unpatched manager script is kept while the game is restored.
pub const MANAGERS_JS_BAK: &'static str = "js/rmmz_managers.js.bak";

/// The MZ loader patch. `c.bid` (not `c.data`) guards the branch, because map
/// JSON also has a `data` field (the tile array).
pub open spec fn mz_loader_patch() -> LoaderPatchSpec {
    LoaderPatchSpec {
        marker: "if(c.bid){var b = Buffer.from(c.data, 'base64');"@,
        hook_old: "var b = Buffer.from(c.data, 'base64');"@,
        hook_new: "if(c.bid){var b = Buffer.from(c.data, 'base64');"@,
        load_old: "window[name] = JSON.parse(b.toString('utf8').replace(/^\u{FEFF}/, ''));"@,
        load_new: "window[name] = JSON.parse(b.toString('utf8').replace(/^\u{FEFF}/, ''));}else{window[name] = c;}"@,
        alt_load_old: "window[name] = JSON.parse(b.toString('utf8').replace(/^\\uFEFF/, ''));   _t.onLoad(window[name]);"@,
        alt_load_new: "window[name] = JSON.parse(b.toString('utf8').replace(/^\\uFEFF/, ''));}else{window[name] = c;}   _t.onLoad(window[name]);"@,
    }
}

fn mz_patch_texts() -> (p: LoaderPatch)
    ensures
        p.view() == mz_loader_patch(),
        p.well_formed(),
{
    proof {
        reveal_strlit("var b = Buffer.from(c.data, 'base64');");
        reveal_strlit("window[name] = JSON.parse(b.toString('utf8').replace(/^\u{FEFF}/, ''));");
        reveal_strlit("window[name] = JSON.parse(b.toString('utf8').replace(/^\\uFEFF/, ''));   _t.onLoad(window[name]);");
    }
    LoaderPatch {
        marker: str_to_chars("if(c.bid){var b = Buffer.from(c.data, 'base64');"),
        hook_old: str_to_chars("var b = Buffer.from(c.data, 'base64');"),
        hook_new: str_to_chars("if(c.bid){var b = Buffer.from(c.data, 'base64');"),
        load_old: str_to_chars("window[name] = JSON.parse(b.toString('utf8').replace(/^\u{FEFF}/, ''));"),
        load_new: str_to_chars("window[name] = JSON.parse(b.toString('utf8').replace(/^\u{FEFF}/, ''));}else{window[name] = c;}"),
        alt_load_old: str_to_chars("window[name] = JSON.parse(b.toString('utf8').replace(/^\\uFEFF/, ''));   _t.onLoad(window[name]);"),
        alt_load_new: str_to_chars("window[name] = JSON.parse(b.toString('utf8').replace(/^\\uFEFF/, ''));}else{window[name] = c;}   _t.onLoad(window[name]);"),
    }
}

/// Patches the text of `rmmz_managers.js` so that the game accepts plain JSON
/// as well as wrapped encrypted JSON. `AlreadyPatched` when the guard is
/// already there.
pub fn patch_managers_source(content: &str) -> (r: Result<PatchOutcome, PatchError>)
    ensures
        outcome_matches(r, patched_source(mz_loader_patch(), content@)),
{
    let p = mz_patch_texts();
    apply_loader_patch(&p, content)
}

proof fn lemma_mz_patch_stable()
    ensures
        patch_is_stable(mz_loader_patch()),
{
    let p = mz_loader_patch();
    reveal_strlit("if(c.bid){var b = Buffer.from(c.data, 'base64');");
    reveal_strlit("var b = Buffer.from(c.data, 'base64');");
    reveal_strlit("window[name] = JSON.parse(b.toString('utf8').replace(/^\u{FEFF}/, ''));");
    reveal_strlit("window[name] = JSON.parse(b.toString('utf8').replace(/^\\uFEFF/, ''));   _t.onLoad(window[name]);");
    assert(p.hook_new.subrange(0, p.marker.len() as int) =~= p.marker);
    assert(occurs_at(p.hook_new, p.marker, 0));
}

/// Patching `rmmz_managers.js` twice changes nothing the second time: the
/// patched script is reported as already patched.
pub proof fn lemma_mz_patch_idempotent(content: Seq<char>)
    requires
        patched_source(mz_loader_patch(), content) matches Ok(Some(_)),
    ensures
        patched_source(mz_loader_patch(), patched_source(mz_loader_patch(), content)->Ok_0->0)
            == Ok::<Option<Seq<char>>, PatchError>(None),
{
    lemma_mz_patch_stable();
    lemma_patch_idempotent(mz_loader_patch(), content);
}

/// The MZ patch only inserts text: the hook line gets `if(c.bid){` in
/// front of it, and the load line that is found gets
/// `}else{window[name] = c;}` right after its `JSON.parse(..);` (before the
/// `_t.onLoad(..)` call that ends the second form). Every other character
/// of the script, the load line's `JSON.parse` included, stays as it was.
pub proof fn lemma_mz_patch_only_inserts(content: Seq<char>)
    requires
        patched_source(mz_loader_patch(), content) matches Ok(Some(_)),
    ensures
        mz_loader_patch().alt_load_old.skip(mz_loader_patch().alt_load_old.len() - 27)
            == "   _t.onLoad(window[name]);"@,
        patched_source(mz_loader_patch(), content) == Ok::<Option<Seq<char>>, PatchError>(Some(replace_all(
            replace_all(content, mz_loader_patch().hook_old, "if(c.bid){"@ + mz_loader_patch().hook_old),
            mz_loader_patch().load_old,
            mz_loader_patch().load_old + "}else{window[name] = c;}"@,
        ))) || patched_source(mz_loader_patch(), content) == Ok::<Option<Seq<char>>, PatchError>(Some(replace_all(
            replace_all(content, mz_loader_patch().hook_old, "if(c.bid){"@ + mz_loader_patch().hook_old),
            mz_loader_patch().alt_load_old,
            mz_loader_patch().alt_load_old.take(mz_loader_patch().alt_load_old.len() - 27)
                + "}else{window[name] = c;}"@ + "   _t.onLoad(window[name]);"@,
        ))),
{
    let p = mz_loader_patch();
    reveal_strlit("if(c.bid){");
    reveal_strlit("}else{window[name] = c;}");
    reveal_strlit("   _t.onLoad(window[name]);");
    reveal_strlit("if(c.bid){var b = Buffer.from(c.data, 'base64');");
    reveal_strlit("var b = Buffer.from(c.data, 'base64');");
    reveal_strlit("window[name] = JSON.parse(b.toString('utf8').replace(/^\u{FEFF}/, ''));");
    reveal_strlit("window[name] = JSON.parse(b.toString('utf8').replace(/^\u{FEFF}/, ''));}else{window[name] = c;}");
    reveal_strlit("window[name] = JSON.parse(b.toString('utf8').replace(/^\\uFEFF/, ''));   _t.onLoad(window[name]);");
    reveal_strlit(
        "window[name] = JSON.parse(b.toString('utf8').replace(/^\\uFEFF/, ''));}else{window[name] = c;}   _t.onLoad(window[name]);",
    );
    assert(p.alt_load_old.skip(p.alt_load_old.len() - 27) =~= "   _t.onLoad(window[name]);"@);
    assert("if(c.bid){"@ + p.hook_old =~= p.hook_new);
    assert(p.load_old + "}else{window[name] = c;}"@ =~= p.load_new);
    assert(p.alt_load_old.take(p.alt_load_old.len() - 27) + "}else{window[name] = c;}"@
        + "   _t.onLoad(window[name]);"@ =~= p.alt_load_new);
}

/// Reads the crypto parameters from the text of the manager script.
pub fn extract_mz_params_from_str(content: &str) -> (r: Result<CryptoParams, ParamError>)
    ensures
        r == crypto_params_of(content@),
{
    parse_crypto_params(content)
}

} // verus!
