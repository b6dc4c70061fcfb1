//! Recognising a game root and its engine family from what the file system
//! shows, and choosing the root for a set of paths.

use vstd::prelude::*;

use crate::paths::{ancestors, extension_of, joined, join_path, parent_of, path_ancestors, path_extension, path_parent};

verus! {

/// The manager script of an MZ game, relative to the game root.
pub const MZ_MANAGERS_JS: &'static str = "js/rmmz_managers.js";
/// The manager script of an MV-custom game, relative to the game root.
pub const MV_MANAGERS_JS: &'static str = "js/rpg_managers.js";

/// The engine family of a game root.
#[derive(Clone, Copy, Debug, PartialEq, Eq, Structural)]
pub enum EngineKind {
    Mz,
    MvCustom,
}

/// A recognised game root.
#[derive(Clone, Debug, PartialEq, Eq)]
pub struct GameContext {
    pub root: String,
    pub engine: EngineKind,
    pub manager_js: String,
}

/// What the file system shows of a candidate game root (already
/// canonicalised where that was possible).
#[derive(Clone, Debug, PartialEq, Eq)]
pub struct RootProbe {
    pub root: String,
    /// `root/data` is a directory.
    pub has_data_dir: bool,
    /// `root/js/rmmz_managers.js` is a file.
    pub has_mz_manager: bool,
    /// `root/js/rpg_managers.js` is a file.
    pub has_mv_manager: bool,
    /// The platform's main path separator (`std::path::MAIN_SEPARATOR`).
    pub separator: char,
}

/// Why no game root was recognised.
#[derive(Clone, Copy, Debug, PartialEq, Eq, Structural)]
pub enum DetectError {
    /// The candidate has no `data/` directory.
    MissingDataDir,
    /// The candidate has `data/` but neither manager script.
    UnsupportedRoot,
    /// None of the candidates is a game root.
    NotFound,
}

/// A game context as plain values.
pub struct GameContextView {
    pub root: Seq<char>,
    pub engine: EngineKind,
    pub manager_js: Seq<char>,
}

impl GameContext {
    pub open spec fn view(&self) -> GameContextView {
        GameContextView { root: self.root@, engine: self.engine, manager_js: self.manager_js@ }
    }
}

/// The context that a probe shows: `data/` is required; an MZ manager script
/// takes precedence over an MV-custom one.
pub open spec fn detected(p: RootProbe) -> Result<GameContextView, DetectError> {
    if !p.has_data_dir {
        Err(DetectError::MissingDataDir)
    } else if p.has_mz_manager {
        Ok(GameContextView { root: p.root@, engine: EngineKind::Mz, manager_js: joined(p.root@, "js/rmmz_managers.js"@, p.separator) })
    } else if p.has_mv_manager {
        Ok(GameContextView { root: p.root@, engine: EngineKind::MvCustom, manager_js: joined(p.root@, "js/rpg_managers.js"@, p.separator) })
    } else {
        Err(DetectError::UnsupportedRoot)
    }
}

/// Whether `r` is the result that `detected` describes.
pub open spec fn context_matches(r: Result<GameContext, DetectError>, s: Result<GameContextView, DetectError>) -> bool {
    match r {
        Ok(ctx) => s == Ok::<GameContextView, DetectError>(ctx.view()),
        Err(e) => s == Err::<GameContextView, DetectError>(e),
    }
}

/// Recognises the game root that `probe` describes.
pub fn detect_game_context(probe: &RootProbe) -> (r: Result<GameContext, DetectError>)
    ensures
        context_matches(r, detected(*probe)),
{
    if !probe.has_data_dir {
        return Err(DetectError::MissingDataDir);
    }
    proof {
        reveal_strlit("js/rmmz_managers.js");
        reveal_strlit("js/rpg_managers.js");
    }
    if probe.has_mz_manager {
        let manager_js = join_path(probe.root.as_str(), MZ_MANAGERS_JS, probe.separator);
        return Ok(GameContext { root: probe.root.clone(), engine: EngineKind::Mz, manager_js });
    }
    if probe.has_mv_manager {
        let manager_js = join_path(probe.root.as_str(), MV_MANAGERS_JS, probe.separator);
        return Ok(GameContext { root: probe.root.clone(), engine: EngineKind::MvCustom, manager_js });
    }
    Err(DetectError::UnsupportedRoot)
}

/// Where the search for a game root starts from a path: its parent when it
/// is a file, or when it does not exist and has an extension (so names a
/// file to be written); otherwise the path itself.
pub open spec fn search_start(path: Seq<char>, is_file: bool, exists: bool) -> Seq<char> {
    if is_file || (!exists && path_extension(path) is Some) {
        match path_parent(path) {
            Some(q) => q,
            None => path,
        }
    } else {
        path
    }
}

/// Returns where the search for a game root starts from `path`, given
/// whether it is a file and whether it exists.
pub fn path_search_start(path: &str, is_file: bool, exists: bool) -> (r: String)
    ensures
        r@ == search_start(path@, is_file, exists),
{
    if is_file || (!exists && extension_of(path).is_some()) {
        match parent_of(path) {
            Some(q) => q.to_string(),
            None => path.to_string(),
        }
    } else {
        path.to_string()
    }
}

/// The roots searched for a path, nearest first: the ancestors of its search
/// start.
pub open spec fn search_roots_of(path: Seq<char>, is_file: bool, exists: bool) -> Seq<Seq<char>> {
    ancestors(search_start(path, is_file, exists))
}

/// Lists the roots searched for `path`, given whether it is a file and
/// whether it exists: its search start, then each parent in turn.
pub fn search_roots(path: &str, is_file: bool, exists: bool) -> (r: Vec<String>)
    ensures
        r@.map_values(|s: String| s@) == search_roots_of(path@, is_file, exists),
{
    let start = path_search_start(path, is_file, exists);
    path_ancestors(start.as_str())
}

/// The engine family whose manager script a probe shows, whether or not
/// `data/` is there; MZ takes precedence.
pub open spec fn manager_engine(p: RootProbe) -> Option<EngineKind> {
    if p.has_mz_manager {
        Some(EngineKind::Mz)
    } else if p.has_mv_manager {
        Some(EngineKind::MvCustom)
    } else {
        None
    }
}

/// Tells which engine family's manager script `probe` shows (the only thing
/// that patching the script needs).
pub fn detect_manager_engine(probe: &RootProbe) -> (r: Option<EngineKind>)
    ensures
        r == manager_engine(*probe),
{
    if probe.has_mz_manager {
        Some(EngineKind::Mz)
    } else if probe.has_mv_manager {
        Some(EngineKind::MvCustom)
    } else {
        None
    }
}

/// Chooses the first candidate that is a game root. The candidates are the
/// ancestors of each given path's search start, path by path, nearest first.
pub fn auto_detect_game_context(candidates: &Vec<RootProbe>) -> (r: Result<GameContext, DetectError>)
    ensures
        match r {
            Ok(ctx) => exists|i: int|
                0 <= i < candidates@.len() && detected(#[trigger] candidates@[i]) == Ok::<GameContextView, DetectError>(ctx.view())
                    && forall|j: int| 0 <= j < i ==> (#[trigger] detected(candidates@[j])) is Err,
            Err(e) => e == DetectError::NotFound && forall|i: int|
                0 <= i < candidates@.len() ==> (#[trigger] detected(candidates@[i])) is Err,
        },
{
    let mut i: usize = 0;
    while i < candidates.len()
        invariant
            i <= candidates@.len(),
            forall|j: int| 0 <= j < i ==> (#[trigger] detected(candidates@[j])) is Err,
        decreases candidates@.len() - i,
    {
        match detect_game_context(&candidates[i]) {
            Ok(ctx) => {
                return Ok(ctx);
            },
            Err(_) => {},
        }
        i = i + 1;
    }
    Err(DetectError::NotFound)
}

} // verus!
