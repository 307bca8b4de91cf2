use resonance::editor::readback::{padded_bytes_per_row, readback_buffer_size, unpad_frame};
use resonance::assets::handle::AssetId;
use resonance::editor::state::EditorState;
use resonance::engine_core::memory_stats::{AssetMemoryStats, GpuMemoryStats, MemoryTracker};

#[test]
fn editor_names_and_lookup() {
    let mut state = EditorState::new();
    state.register_entity(1, "Cube".to_string());
    state.register_entity(2, "Light".to_string());
    assert_eq!(state.get_entity_name(1), Some("Cube".to_string()));
    assert_eq!(state.get_entity_name(3), None);
    assert_eq!(state.get_entity_by_name("Light"), Some(2));
    assert_eq!(state.get_entity_by_name("Camera"), None);
    state.register_entity(1, "Box".to_string());
    assert_eq!(state.get_entity_name(1), Some("Box".to_string()));
    assert_eq!(state.get_entity_by_name("Cube"), None);
}

#[test]
fn editor_generates_fresh_names() {
    let mut state = EditorState::new();
    assert_eq!(state.generate_entity_name("Entity"), "Entity");
    state.register_entity(1, "Entity".to_string());
    assert_eq!(state.generate_entity_name("Entity"), "Entity_1");
    state.register_entity(2, "Entity_1".to_string());
    assert_eq!(state.generate_entity_name("Entity"), "Entity_2");
    assert_eq!(state.generate_entity_name("Mesh"), "Mesh");
}

#[test]
fn editor_rename_refuses_taken_name() {
    let mut state = EditorState::new();
    state.register_entity(1, "A".to_string());
    state.register_entity(2, "B".to_string());
    let r = state.rename_entity(2, "A".to_string());
    assert_eq!(r, Err("Entity with name 'A' already exists".to_string()));
    assert_eq!(state.get_entity_name(2), Some("B".to_string()));
    assert_eq!(state.rename_entity(2, "C".to_string()), Ok(()));
    assert_eq!(state.get_entity_name(2), Some("C".to_string()));
}

#[test]
fn editor_hierarchy() {
    let mut state = EditorState::new();
    for (id, name) in [(1u64, "Root"), (2, "Child"), (3, "Other"), (4, "Leaf")] {
        state.register_entity(id, name.to_string());
    }
    state.add_child(1, 2);
    state.add_child(1, 3);
    state.add_child(2, 4);
    assert_eq!(state.get_children(1), vec![2, 3]);
    assert_eq!(state.get_children(4), Vec::<u64>::new());
    let mut roots = state.get_root_entities();
    roots.sort();
    assert_eq!(roots, vec![1]);

    state.remove_child(1, 3);
    assert_eq!(state.get_children(1), vec![2]);
    let mut roots = state.get_root_entities();
    roots.sort();
    assert_eq!(roots, vec![1, 3]);

    state.set_entity_parent(4, Some(3));
    assert_eq!(state.get_children(2), Vec::<u64>::new());
    assert_eq!(state.get_children(3), vec![4]);
    state.set_entity_parent(4, None);
    assert_eq!(state.get_children(3), Vec::<u64>::new());
    let mut roots = state.get_root_entities();
    roots.sort();
    assert_eq!(roots, vec![1, 3, 4]);
}

#[test]
fn editor_unregister_detaches() {
    let mut state = EditorState::new();
    state.register_entity(1, "Parent".to_string());
    state.register_entity(2, "Child".to_string());
    state.register_entity(3, "Grandchild".to_string());
    state.add_child(1, 2);
    state.add_child(2, 3);
    state.unregister_entity(2);
    assert_eq!(state.get_entity_name(2), None);
    assert_eq!(state.get_children(1), Vec::<u64>::new());
    assert_eq!(state.get_children(2), Vec::<u64>::new());
    let mut roots = state.get_root_entities();
    roots.sort();
    assert_eq!(roots, vec![1, 3]);
}

#[test]
fn gpu_and_asset_totals() {
    let g = GpuMemoryStats {
        depth_textures: 1,
        ssao_textures: 2,
        msaa_textures: 3,
        camera_buffer: 4,
        mesh_vertex_buffers: 5,
        mesh_index_buffers: 6,
        other_buffers: 7,
    };
    assert_eq!(g.total(), 28);
    let a = AssetMemoryStats { textures: 10, meshes: 20, audio: 30, shaders: 40, fonts: 50, other: 60 };
    assert_eq!(a.total(), 210);
    assert_eq!(GpuMemoryStats::default().total(), 0);
    assert_eq!(AssetMemoryStats::default().total(), 0);
}

#[test]
fn tracker_counts() {
    let mut t = MemoryTracker::new();
    assert_eq!(t.total_memory(), 0);
    t.track_depth_texture(100);
    t.track_depth_texture(80);
    t.track_ssao_textures(10);
    t.track_msaa_textures(20);
    t.track_camera_buffer(5);
    t.track_other_buffer(7);
    t.track_other_buffer(3);
    assert_eq!(t.gpu.depth_textures, 80);
    assert_eq!(t.gpu.other_buffers, 10);
    t.track_texture_asset(1000);
    t.track_texture_asset(24);
    t.track_mesh_asset(1);
    t.track_audio_asset(2);
    t.track_shader_asset(3);
    t.track_font_asset(4);
    assert_eq!(t.assets.textures, 1024);
    assert_eq!(t.total_memory(), 80 + 10 + 20 + 5 + 10 + 1024 + 1 + 2 + 3 + 4);
}

#[test]
fn tracker_meshes_replace_and_untrack() {
    let mut t = MemoryTracker::default();
    t.track_mesh_gpu(AssetId(7), 100, 40);
    t.track_mesh_gpu(AssetId(8), 10, 4);
    assert_eq!(t.gpu_mesh_count(), 2);
    assert_eq!(t.gpu.mesh_vertex_buffers, 110);
    assert_eq!(t.gpu.mesh_index_buffers, 44);
    // Tracking again replaces the first sizes.
    t.track_mesh_gpu(AssetId(7), 60, 20);
    assert_eq!(t.gpu_mesh_count(), 2);
    assert_eq!(t.gpu.mesh_vertex_buffers, 70);
    assert_eq!(t.gpu.mesh_index_buffers, 24);
    t.untrack_mesh_gpu(&AssetId(7));
    assert_eq!(t.gpu_mesh_count(), 1);
    assert_eq!(t.gpu.mesh_vertex_buffers, 10);
    assert_eq!(t.gpu.mesh_index_buffers, 4);
    // Untracking an unknown mesh changes nothing.
    t.untrack_mesh_gpu(&AssetId(99));
    assert_eq!(t.gpu_mesh_count(), 1);
    assert_eq!(t.gpu.mesh_vertex_buffers, 10);
}

#[test]
fn tracker_track_then_untrack_restores() {
    let mut t = MemoryTracker::new();
    t.track_mesh_gpu(AssetId(1), 5, 6);
    let before = (t.gpu.mesh_vertex_buffers, t.gpu.mesh_index_buffers, t.gpu_mesh_count());
    t.track_mesh_gpu(AssetId(2), 300, 200);
    t.untrack_mesh_gpu(&AssetId(2));
    assert_eq!((t.gpu.mesh_vertex_buffers, t.gpu.mesh_index_buffers, t.gpu_mesh_count()), before);
}

#[test]
fn tracker_saturates_at_zero() {
    let mut t = MemoryTracker::new();
    t.track_mesh_gpu(AssetId(1), 50, 50);
    // The count was lowered from outside the mesh table.
    t.gpu.mesh_vertex_buffers = 10;
    t.untrack_mesh_gpu(&AssetId(1));
    assert_eq!(t.gpu.mesh_vertex_buffers, 0);
    assert_eq!(t.gpu.mesh_index_buffers, 0);
}

#[test]
fn readback_row_padding() {
    assert_eq!(padded_bytes_per_row(0), 0);
    assert_eq!(padded_bytes_per_row(1), 256);
    assert_eq!(padded_bytes_per_row(64), 256);
    assert_eq!(padded_bytes_per_row(65), 512);
    assert_eq!(readback_buffer_size(10, 3), 768);
}

#[test]
fn readback_unpads_rows() {
    let data: Vec<u8> = (0..512u32).map(|i| (i % 251) as u8).collect();
    let frame = unpad_frame(&data, 10, 2);
    let mut expected: Vec<u8> = data[0..40].to_vec();
    expected.extend_from_slice(&data[256..296]);
    assert_eq!(frame, expected);
    assert!(unpad_frame(&data, 10, 0).is_empty());
}

#[test]
fn readback_without_padding_is_unchanged() {
    let data: Vec<u8> = (0..512u32).map(|i| (i % 7) as u8).collect();
    assert_eq!(unpad_frame(&data, 64, 2), data);
}

#[test]
fn editor_hierarchy_nodes() {
    let mut state = EditorState::new();
    state.register_entity(1, "Root".to_string());
    state.register_entity(2, "Child".to_string());
    state.register_entity(5, "Other".to_string());
    state.add_child(1, 2);
    state.add_child(1, 9);
    assert_eq!(state.entity_node(1), (1, "Root".to_string(), vec![2, 9]));
    assert_eq!(state.entity_node(9), (9, "Unnamed".to_string(), vec![]));
    let mut nodes = state.entity_hierarchy();
    nodes.sort();
    assert_eq!(
        nodes,
        vec![(1, "Root".to_string(), vec![2, 9]), (5, "Other".to_string(), vec![])]
    );
}

#[test]
fn editor_remove_subtree() {
    let mut state = EditorState::new();
    for (id, name) in [(1u64, "Root"), (2, "A"), (3, "B"), (4, "C"), (5, "Other")] {
        state.register_entity(id, name.to_string());
    }
    state.add_child(1, 2);
    state.add_child(1, 3);
    state.add_child(2, 4);
    assert_eq!(state.remove_subtree(1), vec![4, 2, 3, 1]);
    for id in 1..=4 {
        assert_eq!(state.get_entity_name(id), None);
        assert!(state.get_children(id).is_empty());
    }
    assert_eq!(state.get_root_entities(), vec![5]);
}

#[test]
fn editor_remove_subtree_shared_child() {
    let mut state = EditorState::new();
    state.register_entity(1, "P".to_string());
    state.register_entity(2, "Q".to_string());
    state.register_entity(3, "R".to_string());
    state.add_child(1, 2);
    state.add_child(1, 3);
    state.add_child(2, 3);
    assert_eq!(state.remove_subtree(1), vec![3, 2, 3, 1]);
    assert!(state.get_root_entities().is_empty());
    assert_eq!(state.remove_subtree(9), vec![9]);
}
