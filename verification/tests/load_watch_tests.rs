use resonance::assets::handle::{AssetHandle, AssetId};
use resonance::assets::hot_reload::{HotReloadEventKind, WatchTable};
use resonance::assets::load_states::{LoadState, LoadStates};
use std::sync::Arc;

fn handle(id: u64) -> AssetHandle<u32> {
    AssetHandle::new(Arc::new(0), AssetId(id), format!("asset{}", id))
}

#[test]
fn load_states_track_each_asset() {
    let mut states: LoadStates<u32> = LoadStates::new();
    assert!(states.get_state(AssetId(1)).is_none());
    states.set_state(AssetId(1), LoadState::Loading);
    assert!(states.is_loading(AssetId(1)));
    assert!(!states.is_loaded(AssetId(1)));
    states.set_state(AssetId(1), LoadState::Loaded(Arc::new(42)));
    assert!(states.is_loaded(AssetId(1)));
    assert!(!states.is_loading(AssetId(1)));
    match states.get_state(AssetId(1)) {
        Some(LoadState::Loaded(a)) => assert_eq!(*a, 42),
        other => panic!("unexpected state {:?}", other),
    }
    states.set_state(AssetId(2), LoadState::Failed("missing file".to_string()));
    assert_eq!(states.get_error(AssetId(2)), Some("missing file".to_string()));
    assert_eq!(states.get_error(AssetId(1)), None);
    states.clear_state(AssetId(2));
    assert!(states.get_state(AssetId(2)).is_none());
    assert_eq!(states.get_error(AssetId(2)), None);
}

#[test]
fn load_states_over_handles() {
    let mut states: LoadStates<u32> = LoadStates::default();
    let hs = vec![handle(1), handle(2), handle(3)];
    assert!(states.all_loaded(&[]));
    assert!(!states.all_loaded(&hs));
    assert_eq!(states.loading_progress(&hs), (0, 3));
    states.set_state(AssetId(1), LoadState::Loaded(Arc::new(1)));
    states.set_state(AssetId(2), LoadState::Loading);
    assert_eq!(states.loading_progress(&hs), (1, 3));
    assert!(!states.any_failed(&hs));
    states.set_state(AssetId(3), LoadState::Failed("bad".to_string()));
    assert!(states.any_failed(&hs));
    states.set_state(AssetId(2), LoadState::Loaded(Arc::new(2)));
    states.set_state(AssetId(3), LoadState::Loaded(Arc::new(3)));
    assert!(states.all_loaded(&hs));
    assert!(!states.any_failed(&hs));
    assert_eq!(states.loading_progress(&hs), (3, 3));
    // A handle counted twice is loaded twice.
    let twice = vec![handle(1), handle(1), handle(9)];
    assert_eq!(states.loading_progress(&twice), (2, 3));
}

#[test]
fn watch_table_watches_and_unwatches() {
    let mut t = WatchTable::new();
    assert!(!t.is_watched("a.png"));
    t.watch("a.png".to_string(), AssetId(5));
    t.watch("b.png".to_string(), AssetId(6));
    assert!(t.is_watched("a.png"));
    assert_eq!(t.watched_asset("a.png"), Some(AssetId(5)));
    t.watch("a.png".to_string(), AssetId(7));
    assert_eq!(t.watched_asset("a.png"), Some(AssetId(7)));
    t.unwatch("a.png");
    assert!(!t.is_watched("a.png"));
    assert!(t.is_watched("b.png"));
    t.unwatch("never.png");
    assert!(t.is_watched("b.png"));
}

#[test]
fn watch_table_routes_only_watched_paths() {
    let mut t = WatchTable::new();
    t.watch("shaders/pbr.wgsl".to_string(), AssetId(10));
    t.watch("textures/wall.png".to_string(), AssetId(11));
    let events = t.route_event(
        HotReloadEventKind::Modified,
        vec!["textures/wall.png".to_string(), "other.txt".to_string(), "shaders/pbr.wgsl".to_string()],
    );
    assert_eq!(events.len(), 2);
    assert_eq!(events[0].path, "textures/wall.png");
    assert_eq!(events[0].asset_id, AssetId(11));
    assert_eq!(events[1].path, "shaders/pbr.wgsl");
    assert_eq!(events[1].asset_id, AssetId(10));
    assert!(events.iter().all(|e| e.event_kind == HotReloadEventKind::Modified));
    assert!(t.route_event(HotReloadEventKind::Deleted, vec!["x".to_string()]).is_empty());
}

#[test]
fn watch_table_dependencies() {
    let mut t = WatchTable::new();
    assert!(t.get_dependencies(AssetId(1)).is_empty());
    t.add_dependency(AssetId(1), "a.mtl".to_string());
    t.add_dependency(AssetId(1), "b.png".to_string());
    t.add_dependency(AssetId(1), "a.mtl".to_string());
    t.add_dependency(AssetId(2), "c.png".to_string());
    let mut deps = t.get_dependencies(AssetId(1));
    deps.sort();
    assert_eq!(deps, vec!["a.mtl".to_string(), "b.png".to_string()]);
    assert_eq!(t.get_dependencies(AssetId(2)), vec!["c.png".to_string()]);
}

#[test]
fn watch_table_compares_paths_by_components() {
    let mut t = WatchTable::new();
    t.watch("assets/a.png".to_string(), AssetId(1));
    assert!(t.is_watched("assets//a.png"));
    assert!(t.is_watched("assets/./a.png"));
    assert!(!t.is_watched("assets/b.png"));
    // Watching an equal path replaces the asset and keeps the first path.
    t.watch("assets//a.png".to_string(), AssetId(2));
    assert_eq!(t.watched_asset("assets/a.png"), Some(AssetId(2)));
    let events = t.route_event(HotReloadEventKind::Created, vec!["assets//a.png".to_string()]);
    assert_eq!(events.len(), 1);
    assert_eq!(events[0].path, "assets//a.png");
    assert_eq!(events[0].asset_id, AssetId(2));
    t.unwatch("assets/a.png/");
    assert!(!t.is_watched("assets/a.png"));
    t.add_dependency(AssetId(3), "m/x.mtl".to_string());
    t.add_dependency(AssetId(3), "m//x.mtl".to_string());
    assert_eq!(t.get_dependencies(AssetId(3)), vec!["m/x.mtl".to_string()]);
}
