use rpgdata_crypt::detect::{
    auto_detect_game_context, detect_game_context, detect_manager_engine, path_search_start, search_roots, DetectError,
    EngineKind, RootProbe,
    MV_MANAGERS_JS, MZ_MANAGERS_JS,
};
use rpgdata_crypt::paths::{join_path, path_ancestors};

fn probe(root: &str, data: bool, mz: bool, mv: bool) -> RootProbe {
    RootProbe { root: root.to_string(), has_data_dir: data, has_mz_manager: mz, has_mv_manager: mv, separator: '/' }
}

#[test]
fn detects_mz_game_kind() {
    let ctx = detect_game_context(&probe("/games/mz", true, true, false)).unwrap();
    assert_eq!(ctx.engine, EngineKind::Mz);
    assert_eq!(ctx.root, "/games/mz");
    assert_eq!(ctx.manager_js, "/games/mz/js/rmmz_managers.js");
}

#[test]
fn detects_mv_game_kind() {
    let ctx = detect_game_context(&probe("/games/mv/", true, false, true)).unwrap();
    assert_eq!(ctx.engine, EngineKind::MvCustom);
    assert_eq!(ctx.manager_js, "/games/mv/js/rpg_managers.js");
}

#[test]
fn mz_takes_precedence() {
    let ctx = detect_game_context(&probe("g", true, true, true)).unwrap();
    assert_eq!(ctx.engine, EngineKind::Mz);
    assert_eq!(ctx.manager_js, format!("g/{}", MZ_MANAGERS_JS));
}

#[test]
fn detect_errors() {
    assert_eq!(detect_game_context(&probe("g", false, true, true)), Err(DetectError::MissingDataDir));
    assert_eq!(detect_game_context(&probe("g", true, false, false)), Err(DetectError::UnsupportedRoot));
}

#[test]
fn auto_detect_takes_first_root() {
    let candidates = vec![
        probe("/t/game/www/data", false, false, false),
        probe("/t/game/www", true, false, false),
        probe("/t/game", true, false, true),
        probe("/t", true, true, false),
    ];
    let ctx = auto_detect_game_context(&candidates).unwrap();
    assert_eq!(ctx.root, "/t/game");
    assert_eq!(ctx.engine, EngineKind::MvCustom);
    assert_eq!(ctx.manager_js, format!("/t/game/{}", MV_MANAGERS_JS));
}

/// Probes a candidate root against a fixed set of directories and files.
fn probe_in(dirs: &[&str], files: &[&str], root: &str) -> RootProbe {
    let has = |set: &[&str], rel: &str| set.contains(&join_path(root, rel, '/').as_str());
    RootProbe {
        root: root.to_string(),
        has_data_dir: has(dirs, "data"),
        has_mz_manager: has(files, MZ_MANAGERS_JS),
        has_mv_manager: has(files, MV_MANAGERS_JS),
        separator: '/',
    }
}

#[test]
fn auto_detects_from_nested_path() {
    let dirs = ["/tmp/g", "/tmp/g/data", "/tmp/g/js", "/tmp/g/www", "/tmp/g/www/data"];
    let files = ["/tmp/g/js/rmmz_managers.js"];
    let nested = "/tmp/g/www/data/System.json"; // does not exist, has an extension
    let start = path_search_start(nested, false, false);
    assert_eq!(start, "/tmp/g/www/data");
    let roots = search_roots(nested, false, false);
    assert_eq!(roots, path_ancestors(&start));
    let candidates: Vec<RootProbe> = roots.iter().map(|c| probe_in(&dirs, &files, c)).collect();
    let ctx = auto_detect_game_context(&candidates).unwrap();
    assert_eq!(ctx.engine, EngineKind::Mz);
    assert_eq!(ctx.root, "/tmp/g");
}

#[test]
fn auto_detect_not_found() {
    let candidates = vec![probe("/a/b", false, true, false), probe("/a", true, false, false)];
    assert_eq!(auto_detect_game_context(&candidates), Err(DetectError::NotFound));
    assert_eq!(auto_detect_game_context(&Vec::new()), Err(DetectError::NotFound));
}

#[test]
fn search_start_cases() {
    assert_eq!(path_search_start("game/data/System.json", true, true), "game/data");
    assert_eq!(path_search_start("out/Map001.json", false, false), "out");
    assert_eq!(path_search_start("out/newdir", false, false), "out/newdir");
    assert_eq!(path_search_start("game/data", false, true), "game/data");
    assert_eq!(path_search_start("/", true, true), "/");
}

#[test]
fn ancestors_nearest_first() {
    assert_eq!(path_ancestors("a/b/c"), vec!["a/b/c", "a/b", "a", ""]);
    assert_eq!(path_ancestors("/x/y"), vec!["/x/y", "/x", "/"]);
    assert_eq!(path_ancestors(""), vec![""]);
}

#[test]
fn join_cases() {
    assert_eq!(join_path("root", "data", '/'), "root/data");
    assert_eq!(join_path("root/", "data", '/'), "root/data");
    assert_eq!(join_path("", "data", '/'), "data");
    assert_eq!(join_path("/", "js/rpg_managers.js", '/'), "/js/rpg_managers.js");
    assert_eq!(join_path("C:\\game", "js/rpg_managers.js", '\\'), "C:\\game\\js/rpg_managers.js");
    assert_eq!(join_path("C:\\game\\", "data", '\\'), "C:\\game\\data");
    assert_eq!(join_path("C:\\game/", "data", '\\'), "C:\\game/data");
    for (base, rel) in [("a/b", "c/d.js"), ("a/", "x"), ("", "y"), ("/", "z")] {
        assert_eq!(
            join_path(base, rel, std::path::MAIN_SEPARATOR),
            std::path::Path::new(base).join(rel).to_str().unwrap()
        );
    }
}

#[test]
fn search_roots_cases() {
    assert_eq!(search_roots("g/data/System.json", true, true), vec!["g/data", "g", ""]);
    assert_eq!(search_roots("g/out", false, true), vec!["g/out", "g", ""]);
}

#[test]
fn manager_engine_does_not_need_data_dir() {
    assert_eq!(detect_manager_engine(&probe("g", false, true, false)), Some(EngineKind::Mz));
    assert_eq!(detect_manager_engine(&probe("g", false, false, true)), Some(EngineKind::MvCustom));
    assert_eq!(detect_manager_engine(&probe("g", true, true, true)), Some(EngineKind::Mz));
    assert_eq!(detect_manager_engine(&probe("g", true, false, false)), None);
}
