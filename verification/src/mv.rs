//! MV games with a custom loader: the manager script `js/rpg_managers.js`
//! and its patch.

use vstd::prelude::*;

use crate::patch::{
    apply_loader_patch, lemma_patch_idempotent, outcome_matches, patch_is_stable, patched_source, LoaderPatch,
    LoaderPatchSpec, PatchError, PatchOutcome,
};
use crate::text::replace_all;
use crate::text::occurs_at;
use crate::crypto::CryptoParams;
use crate::param_parser::{crypto_params_of, parse_crypto_params, ParamError};
use crate::text::str_to_chars;

verus! {

/// The manager script of an MV-custom game, relative to the game root.
pub const MANAGERS_JS: &'static str = "js/rpg_managers.js";
/// Where the unpatched manager script is kept while the game is restored.
pub const MANAGERS_JS_BAK: &'static str = "js/rpg_managers.js.bak";

/// The MV-custom loader patch (the script is minified, without spaces).
pub open spec fn mv_loader_patch() -> LoaderPatchSpec {
    LoaderPatchSpec {
        marker: "if(c.bid){var b=Buffer.from(c.data,'base64');"@,
        hook_old: "var c=JSON.parse(xhr.responseText);var b=Buffer.from(c.data,'base64');"@,
        hook_new: "var c=JSON.parse(xhr.responseText);if(c.bid){var b=Buffer.from(c.data,'base64');"@,
        load_old: "window[name]=JSON.parse(b.toString('utf8').replace(/^\u{FEFF}/, ''));"@,
        load_new: "window[name]=JSON.parse(b.toString('utf8').replace(/^\u{FEFF}/, ''));}else{window[name]=c;}"@,
        alt_load_old: "window[name]=JSON.parse(b.toString('utf8').replace(/^\\uFEFF/, ''));"@,
        alt_load_new: "window[name]=JSON.parse(b.toString('utf8').replace(/^\\uFEFF/, ''));}else{window[name]=c;}"@,
    }
}

fn mv_patch_texts() -> (p: LoaderPatch)
    ensures
        p.view() == mv_loader_patch(),
        p.well_formed(),
{
    proof {
        reveal_strlit("var c=JSON.parse(xhr.responseText);var b=Buffer.from(c.data,'base64');");
        reveal_strlit("window[name]=JSON.parse(b.toString('utf8').replace(/^\u{FEFF}/, ''));");
        reveal_strlit("window[name]=JSON.parse(b.toString('utf8').replace(/^\\uFEFF/, ''));");
    }
    LoaderPatch {
        marker: str_to_chars("if(c.bid){var b=Buffer.from(c.data,'base64');"),
        hook_old: str_to_chars("var c=JSON.parse(xhr.responseText);var b=Buffer.from(c.data,'base64');"),
        hook_new: str_to_chars("var c=JSON.parse(xhr.responseText);if(c.bid){var b=Buffer.from(c.data,'base64');"),
        load_old: str_to_chars("window[name]=JSON.parse(b.toString('utf8').replace(/^\u{FEFF}/, ''));"),
        load_new: str_to_chars("window[name]=JSON.parse(b.toString('utf8').replace(/^\u{FEFF}/, ''));}else{window[name]=c;}"),
        alt_load_old: str_to_chars("window[name]=JSON.parse(b.toString('utf8').replace(/^\\uFEFF/, ''));"),
        alt_load_new: str_to_chars("window[name]=JSON.parse(b.toString('utf8').replace(/^\\uFEFF/, ''));}else{window[name]=c;}"),
    }
}

/// Patches the text of `rpg_managers.js` so that the game accepts plain JSON
/// as well as wrapped encrypted JSON. `AlreadyPatched` when the guard is
/// already there.
pub fn patch_managers_source(content: &str) -> (r: Result<PatchOutcome, PatchError>)
    ensures
        outcome_matches(r, patched_source(mv_loader_patch(), content@)),
{
    let p = mv_patch_texts();
    apply_loader_patch(&p, content)
}

proof fn lemma_mv_patch_stable()
    ensures
        patch_is_stable(mv_loader_patch()),
{
    let p = mv_loader_patch();
    reveal_strlit("if(c.bid){var b=Buffer.from(c.data,'base64');");
    reveal_strlit("var c=JSON.parse(xhr.responseText);var b=Buffer.from(c.data,'base64');");
    reveal_strlit("var c=JSON.parse(xhr.responseText);if(c.bid){var b=Buffer.from(c.data,'base64');");
    reveal_strlit("window[name]=JSON.parse(b.toString('utf8').replace(/^\u{FEFF}/, ''));");
    reveal_strlit("window[name]=JSON.parse(b.toString('utf8').replace(/^\\uFEFF/, ''));");
    assert(p.hook_new.subrange(35int, 35int + p.marker.len()) =~= p.marker);
    assert(occurs_at(p.hook_new, p.marker, 35));
}

/// Patching `rpg_managers.js` twice changes nothing the second time: the
/// patched script is reported as already patched.
pub proof fn lemma_mv_patch_idempotent(content: Seq<char>)
    requires
        patched_source(mv_loader_patch(), content) matches Ok(Some(_)),
    ensures
        patched_source(mv_loader_patch(), patched_source(mv_loader_patch(), content)->Ok_0->0)
            == Ok::<Option<Seq<char>>, PatchError>(None),
{
    lemma_mv_patch_stable();
    lemma_patch_idempotent(mv_loader_patch(), content);
}

/// The MV-custom patch only inserts text: the hook line gets `if(c.bid){`
/// right after `var c=JSON.parse(xhr.responseText);`, and the load line
/// that is found gets `}else{window[name]=c;}` after it. Every other
/// character of the script, the load line's `JSON.parse` included, stays as
/// it was.
pub proof fn lemma_mv_patch_only_inserts(content: Seq<char>)
    requires
        patched_source(mv_loader_patch(), content) matches Ok(Some(_)),
    ensures
        mv_loader_patch().hook_old.take(35) == "var c=JSON.parse(xhr.responseText);"@,
        patched_source(mv_loader_patch(), content) == Ok::<Option<Seq<char>>, PatchError>(Some(replace_all(
            replace_all(
                content,
                mv_loader_patch().hook_old,
                mv_loader_patch().hook_old.take(35) + "if(c.bid){"@ + mv_loader_patch().hook_old.skip(35),
            ),
            mv_loader_patch().load_old,
            mv_loader_patch().load_old + "}else{window[name]=c;}"@,
        ))) || patched_source(mv_loader_patch(), content) == Ok::<Option<Seq<char>>, PatchError>(Some(replace_all(
            replace_all(
                content,
                mv_loader_patch().hook_old,
                mv_loader_patch().hook_old.take(35) + "if(c.bid){"@ + mv_loader_patch().hook_old.skip(35),
            ),
            mv_loader_patch().alt_load_old,
            mv_loader_patch().alt_load_old + "}else{window[name]=c;}"@,
        ))),
{
    let p = mv_loader_patch();
    reveal_strlit("if(c.bid){");
    reveal_strlit("}else{window[name]=c;}");
    reveal_strlit("var c=JSON.parse(xhr.responseText);");
    reveal_strlit("var c=JSON.parse(xhr.responseText);var b=Buffer.from(c.data,'base64');");
    reveal_strlit("var c=JSON.parse(xhr.responseText);if(c.bid){var b=Buffer.from(c.data,'base64');");
    reveal_strlit("window[name]=JSON.parse(b.toString('utf8').replace(/^\u{FEFF}/, ''));");
    reveal_strlit("window[name]=JSON.parse(b.toString('utf8').replace(/^\u{FEFF}/, ''));}else{window[name]=c;}");
    reveal_strlit("window[name]=JSON.parse(b.toString('utf8').replace(/^\\uFEFF/, ''));");
    reveal_strlit("window[name]=JSON.parse(b.toString('utf8').replace(/^\\uFEFF/, ''));}else{window[name]=c;}");
    assert(p.hook_old.take(35) =~= "var c=JSON.parse(xhr.responseText);"@);
    assert(p.hook_old.take(35) + "if(c.bid){"@ + p.hook_old.skip(35) =~= p.hook_new);
    assert(p.load_old + "}else{window[name]=c;}"@ =~= p.load_new);
    assert(p.alt_load_old + "}else{window[name]=c;}"@ =~= p.alt_load_new);
}

/// Reads the crypto parameters from the text of the manager script.
pub fn extract_mv_params_from_str(content: &str) -> (r: Result<CryptoParams, ParamError>)
    ensures
        r == crypto_params_of(content@),
{
    parse_crypto_params(content)
}

} // verus!
