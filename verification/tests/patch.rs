use rpgdata_crypt::mv::patch_managers_source as patch_mv;
use rpgdata_crypt::mz::patch_managers_source as patch_mz;
use rpgdata_crypt::patch::{PatchError, PatchOutcome};

const MZ_HOOK: &str = "var c = JSON.parse(xhr.responseText); var b = Buffer.from(c.data, 'base64');";
const MZ_LOAD_BOM: &str = "window[name] = JSON.parse(b.toString('utf8').replace(/^\u{FEFF}/, ''));";
const MZ_LOAD_ESC: &str =
    "window[name] = JSON.parse(b.toString('utf8').replace(/^\\uFEFF/, ''));   _t.onLoad(window[name]);";

fn patched(r: Result<PatchOutcome, PatchError>) -> String {
    match r {
        Ok(PatchOutcome::Patched(s)) => s,
        other => panic!("expected a patch, got {:?}", other),
    }
}

#[test]
fn mz_patch_with_literal_bom_line() {
    let src = format!("xhr.onload = function() {{ {} {} }};", MZ_HOOK, MZ_LOAD_BOM);
    let out = patched(patch_mz(&src));
    assert_eq!(
        out,
        "xhr.onload = function() { var c = JSON.parse(xhr.responseText); \
         if(c.bid){var b = Buffer.from(c.data, 'base64'); \
         window[name] = JSON.parse(b.toString('utf8').replace(/^\u{FEFF}/, ''));}else{window[name] = c;} };"
    );
}

#[test]
fn mz_patch_with_escaped_bom_line() {
    let src = format!("{}\n{}\n", MZ_HOOK, MZ_LOAD_ESC);
    let out = patched(patch_mz(&src));
    assert!(out.contains("if(c.bid){var b = Buffer.from(c.data, 'base64');"));
    assert!(out.contains("''));}else{window[name] = c;}   _t.onLoad(window[name]);"));
}

#[test]
fn mz_patch_twice_reports_already_patched() {
    let src = format!("{} {}", MZ_HOOK, MZ_LOAD_BOM);
    let once = patched(patch_mz(&src));
    assert!(matches!(patch_mz(&once), Ok(PatchOutcome::AlreadyPatched)));
}

#[test]
fn mz_patch_missing_hook() {
    assert!(matches!(patch_mz(MZ_LOAD_BOM), Err(PatchError::HookPatternMissing)));
}

#[test]
fn mz_patch_missing_load_line() {
    assert!(matches!(patch_mz(MZ_HOOK), Err(PatchError::LoadPatternMissing)));
}

#[test]
fn mz_patch_replaces_every_hook() {
    let src = format!("{} {} {}", MZ_HOOK, MZ_HOOK, MZ_LOAD_BOM);
    let out = patched(patch_mz(&src));
    assert_eq!(out.matches("if(c.bid){").count(), 2);
}

const MV_HOOK: &str = "var c=JSON.parse(xhr.responseText);var b=Buffer.from(c.data,'base64');";
const MV_LOAD_ESC: &str = "window[name]=JSON.parse(b.toString('utf8').replace(/^\\uFEFF/, ''));";

#[test]
fn mv_patch_minified_loader() {
    let src = format!("xhr.onload=function(){{if(xhr.status<400){{{}{}DataManager.onLoad(window[name]);}}}};", MV_HOOK, MV_LOAD_ESC);
    let out = patched(patch_mv(&src));
    assert!(out.contains("if(c.bid){var b=Buffer.from(c.data,'base64');"));
    assert!(out.contains("else{window[name]=c;}"));
    assert_eq!(
        out,
        "xhr.onload=function(){if(xhr.status<400){var c=JSON.parse(xhr.responseText);\
         if(c.bid){var b=Buffer.from(c.data,'base64');\
         window[name]=JSON.parse(b.toString('utf8').replace(/^\\uFEFF/, ''));}else{window[name]=c;}\
         DataManager.onLoad(window[name]);}};"
    );
    assert!(matches!(patch_mv(&out), Ok(PatchOutcome::AlreadyPatched)));
}

#[test]
fn mv_patch_errors() {
    assert!(matches!(patch_mv(MV_LOAD_ESC), Err(PatchError::HookPatternMissing)));
    assert!(matches!(patch_mv(MV_HOOK), Err(PatchError::LoadPatternMissing)));
    // the MZ hook line (with spaces) is not the MV one
    assert!(matches!(patch_mv(MZ_HOOK), Err(PatchError::HookPatternMissing)));
}
