//! Memory accounting: GPU buffers and textures, and loaded assets, in bytes.
use crate::assets::handle::AssetId;
use crate::outside::{mesh_table, mesh_table_insert, mesh_table_len, mesh_table_new, mesh_table_remove, MeshSizeMap};
use vstd::prelude::*;

verus! {

/// Bytes held on the GPU, by kind.
#[derive(Debug, Clone, Copy)]
pub struct GpuMemoryStats {
    pub depth_textures: u64,
    pub ssao_textures: u64,
    pub msaa_textures: u64,
    pub camera_buffer: u64,
    pub mesh_vertex_buffers: u64,
    pub mesh_index_buffers: u64,
    pub other_buffers: u64,
}

/// The sum of the GPU byte counts.
pub open spec fn gpu_total(g: GpuMemoryStats) -> int {
    g.depth_textures + g.ssao_textures + g.msaa_textures + g.camera_buffer + g.mesh_vertex_buffers
        + g.mesh_index_buffers + g.other_buffers
}

impl Default for GpuMemoryStats {
    fn default() -> (r: Self)
        ensures
            gpu_total(r) == 0,
    {
        GpuMemoryStats {
            depth_textures: 0,
            ssao_textures: 0,
            msaa_textures: 0,
            camera_buffer: 0,
            mesh_vertex_buffers: 0,
            mesh_index_buffers: 0,
            other_buffers: 0,
        }
    }
}

impl GpuMemoryStats {
    /// All GPU bytes.
    pub fn total(&self) -> (r: u64)
        requires
            gpu_total(*self) <= u64::MAX,
        ensures
            r == gpu_total(*self),
    {
        self.depth_textures + self.ssao_textures + self.msaa_textures + self.camera_buffer
            + self.mesh_vertex_buffers + self.mesh_index_buffers + self.other_buffers
    }
}

/// Bytes held by loaded assets, by kind.
#[derive(Debug, Clone, Copy)]
pub struct AssetMemoryStats {
    pub textures: u64,
    pub meshes: u64,
    pub audio: u64,
    pub shaders: u64,
    pub fonts: u64,
    pub other: u64,
}

/// The sum of the asset byte counts.
pub open spec fn asset_total(a: AssetMemoryStats) -> int {
    a.textures + a.meshes + a.audio + a.shaders + a.fonts + a.other
}

impl Default for AssetMemoryStats {
    fn default() -> (r: Self)
        ensures
            asset_total(r) == 0,
    {
        AssetMemoryStats { textures: 0, meshes: 0, audio: 0, shaders: 0, fonts: 0, other: 0 }
    }
}

impl AssetMemoryStats {
    /// All asset bytes.
    pub fn total(&self) -> (r: u64)
        requires
            asset_total(*self) <= u64::MAX,
        ensures
            r == asset_total(*self),
    {
        self.textures + self.meshes + self.audio + self.shaders + self.fonts + self.other
    }
}

/// The GPU counts after tracking the buffers of mesh `id` as `v` vertex and
/// `i` index bytes: sizes tracked for it before are taken off (down to zero
/// at most), the new ones added.
pub open spec fn track_mesh_spec(g: GpuMemoryStats, m: Map<u64, (u64, u64)>, id: u64, v: u64, i: u64) -> GpuMemoryStats {
    let (ov, oi) = if m.contains_key(id) { m[id] } else { (0u64, 0u64) };
    GpuMemoryStats {
        mesh_vertex_buffers: (sat_sub(g.mesh_vertex_buffers, ov) + v) as u64,
        mesh_index_buffers: (sat_sub(g.mesh_index_buffers, oi) + i) as u64,
        ..g
    }
}

/// The GPU counts after untracking mesh `id`.
pub open spec fn untrack_mesh_spec(g: GpuMemoryStats, m: Map<u64, (u64, u64)>, id: u64) -> GpuMemoryStats {
    if m.contains_key(id) {
        GpuMemoryStats {
            mesh_vertex_buffers: sat_sub(g.mesh_vertex_buffers, m[id].0),
            mesh_index_buffers: sat_sub(g.mesh_index_buffers, m[id].1),
            ..g
        }
    } else {
        g
    }
}

/// `a - b`, or zero where `b` is larger.
pub open spec fn sat_sub(a: u64, b: u64) -> u64 {
    if a >= b {
        (a - b) as u64
    } else {
        0
    }
}

/// Whether tracking mesh `id` with these sizes keeps the counts in range.
pub open spec fn track_fits(g: GpuMemoryStats, m: Map<u64, (u64, u64)>, id: u64, v: u64, i: u64) -> bool {
    let (ov, oi) = if m.contains_key(id) { m[id] } else { (0u64, 0u64) };
    sat_sub(g.mesh_vertex_buffers, ov) + v <= u64::MAX && sat_sub(g.mesh_index_buffers, oi) + i <= u64::MAX
}

/// GPU and asset memory in use, and the buffer sizes of each mesh on the GPU.
pub struct MemoryTracker {
    pub gpu: GpuMemoryStats,
    pub assets: AssetMemoryStats,
    mesh_sizes: MeshSizeMap,
}

/// What a tracker holds: the GPU and asset counts, and the buffer sizes
/// (vertex, index) tracked for each mesh, by asset id.
pub struct MemoryView {
    pub gpu: GpuMemoryStats,
    pub assets: AssetMemoryStats,
    pub meshes: Map<u64, (u64, u64)>,
}

impl View for MemoryTracker {
    type V = MemoryView;

    closed spec fn view(&self) -> MemoryView {
        MemoryView { gpu: self.gpu, assets: self.assets, meshes: mesh_table(self.mesh_sizes) }
    }
}

impl Default for MemoryTracker {
    fn default() -> (r: Self)
        ensures
            gpu_total(r@.gpu) == 0,
            asset_total(r@.assets) == 0,
            r@.meshes == Map::<u64, (u64, u64)>::empty(),
    {
        MemoryTracker::new()
    }
}

impl MemoryTracker {
    /// Nothing tracked.
    pub fn new() -> (r: Self)
        ensures
            gpu_total(r@.gpu) == 0,
            asset_total(r@.assets) == 0,
            r@.meshes == Map::<u64, (u64, u64)>::empty(),
    {
        let r = MemoryTracker { gpu: GpuMemoryStats::default(), assets: AssetMemoryStats::default(), mesh_sizes: mesh_table_new() };
        assert(r@.meshes =~= Map::<u64, (u64, u64)>::empty());
        r
    }

    /// Sets the depth texture size.
    pub fn track_depth_texture(&mut self, size: u64)
        ensures
            final(self)@.gpu == (GpuMemoryStats { depth_textures: size, ..old(self)@.gpu }),
            final(self)@.assets == old(self)@.assets,
            final(self)@.meshes == old(self)@.meshes,
    {
        self.gpu.depth_textures = size;
    }

    /// Sets the SSAO texture size.
    pub fn track_ssao_textures(&mut self, size: u64)
        ensures
            final(self)@.gpu == (GpuMemoryStats { ssao_textures: size, ..old(self)@.gpu }),
            final(self)@.assets == old(self)@.assets,
            final(self)@.meshes == old(self)@.meshes,
    {
        self.gpu.ssao_textures = size;
    }

    /// Sets the MSAA texture size.
    pub fn track_msaa_textures(&mut self, size: u64)
        ensures
            final(self)@.gpu == (GpuMemoryStats { msaa_textures: size, ..old(self)@.gpu }),
            final(self)@.assets == old(self)@.assets,
            final(self)@.meshes == old(self)@.meshes,
    {
        self.gpu.msaa_textures = size;
    }

    /// Sets the camera buffer size.
    pub fn track_camera_buffer(&mut self, size: u64)
        ensures
            final(self)@.gpu == (GpuMemoryStats { camera_buffer: size, ..old(self)@.gpu }),
            final(self)@.assets == old(self)@.assets,
            final(self)@.meshes == old(self)@.meshes,
    {
        self.gpu.camera_buffer = size;
    }

    /// Adds to the other buffers' size.
    pub fn track_other_buffer(&mut self, size: u64)
        requires
            old(self)@.gpu.other_buffers + size <= u64::MAX,
        ensures
            final(self)@.gpu == (GpuMemoryStats { other_buffers: (old(self)@.gpu.other_buffers + size) as u64, ..old(self)@.gpu }),
            final(self)@.assets == old(self)@.assets,
            final(self)@.meshes == old(self)@.meshes,
    {
        self.gpu.other_buffers = self.gpu.other_buffers + size;
    }

    /// Tracks the GPU buffers of mesh `id`, replacing sizes tracked for it
    /// before.
    pub fn track_mesh_gpu(&mut self, id: AssetId, vertex_size: u64, index_size: u64)
        requires
            track_fits(old(self)@.gpu, old(self)@.meshes, id.0, vertex_size, index_size),
        ensures
            final(self)@.gpu == track_mesh_spec(old(self)@.gpu, old(self)@.meshes, id.0, vertex_size, index_size),
            final(self)@.meshes == old(self)@.meshes.insert(id.0, (vertex_size, index_size)),
            final(self)@.assets == old(self)@.assets,
    {
        let old_sizes = mesh_table_insert(&mut self.mesh_sizes, id.0, (vertex_size, index_size));
        if let Some((old_v, old_i)) = old_sizes {
            self.gpu.mesh_vertex_buffers = self.gpu.mesh_vertex_buffers.saturating_sub(old_v);
            self.gpu.mesh_index_buffers = self.gpu.mesh_index_buffers.saturating_sub(old_i);
        }
        self.gpu.mesh_vertex_buffers = self.gpu.mesh_vertex_buffers + vertex_size;
        self.gpu.mesh_index_buffers = self.gpu.mesh_index_buffers + index_size;
    }

    /// Stops tracking mesh `id`, taking its sizes off (down to zero at most).
    pub fn untrack_mesh_gpu(&mut self, id: &AssetId)
        ensures
            final(self)@.gpu == untrack_mesh_spec(old(self)@.gpu, old(self)@.meshes, id.0),
            final(self)@.meshes == old(self)@.meshes.remove(id.0),
            final(self)@.assets == old(self)@.assets,
    {
        if let Some((_, (vertex_size, index_size))) = mesh_table_remove(&mut self.mesh_sizes, id.0) {
            self.gpu.mesh_vertex_buffers = self.gpu.mesh_vertex_buffers.saturating_sub(vertex_size);
            self.gpu.mesh_index_buffers = self.gpu.mesh_index_buffers.saturating_sub(index_size);
        }
    }

    /// Adds to the texture assets' size.
    pub fn track_texture_asset(&mut self, size: u64)
        requires
            old(self)@.assets.textures + size <= u64::MAX,
        ensures
            final(self)@.assets == (AssetMemoryStats { textures: (old(self)@.assets.textures + size) as u64, ..old(self)@.assets }),
            final(self)@.gpu == old(self)@.gpu,
            final(self)@.meshes == old(self)@.meshes,
    {
        self.assets.textures = self.assets.textures + size;
    }

    /// Adds to the mesh assets' size.
    pub fn track_mesh_asset(&mut self, size: u64)
        requires
            old(self)@.assets.meshes + size <= u64::MAX,
        ensures
            final(self)@.assets == (AssetMemoryStats { meshes: (old(self)@.assets.meshes + size) as u64, ..old(self)@.assets }),
            final(self)@.gpu == old(self)@.gpu,
            final(self)@.meshes == old(self)@.meshes,
    {
        self.assets.meshes = self.assets.meshes + size;
    }

    /// Adds to the audio assets' size.
    pub fn track_audio_asset(&mut self, size: u64)
        requires
            old(self)@.assets.audio + size <= u64::MAX,
        ensures
            final(self)@.assets == (AssetMemoryStats { audio: (old(self)@.assets.audio + size) as u64, ..old(self)@.assets }),
            final(self)@.gpu == old(self)@.gpu,
            final(self)@.meshes == old(self)@.meshes,
    {
        self.assets.audio = self.assets.audio + size;
    }

    /// Adds to the shader assets' size.
    pub fn track_shader_asset(&mut self, size: u64)
        requires
            old(self)@.assets.shaders + size <= u64::MAX,
        ensures
            final(self)@.assets == (AssetMemoryStats { shaders: (old(self)@.assets.shaders + size) as u64, ..old(self)@.assets }),
            final(self)@.gpu == old(self)@.gpu,
            final(self)@.meshes == old(self)@.meshes,
    {
        self.assets.shaders = self.assets.shaders + size;
    }

    /// Adds to the font assets' size.
    pub fn track_font_asset(&mut self, size: u64)
        requires
            old(self)@.assets.fonts + size <= u64::MAX,
        ensures
            final(self)@.assets == (AssetMemoryStats { fonts: (old(self)@.assets.fonts + size) as u64, ..old(self)@.assets }),
            final(self)@.gpu == old(self)@.gpu,
            final(self)@.meshes == old(self)@.meshes,
    {
        self.assets.fonts = self.assets.fonts + size;
    }

    /// All memory in use: GPU and assets.
    pub fn total_memory(&self) -> (r: u64)
        requires
            gpu_total(self@.gpu) + asset_total(self@.assets) <= u64::MAX,
        ensures
            r == gpu_total(self@.gpu) + asset_total(self@.assets),
    {
        self.gpu.total() + self.assets.total()
    }

    /// How many meshes are tracked on the GPU.
    pub fn gpu_mesh_count(&self) -> (r: usize)
        ensures
            r == self@.meshes.len(),
    {
        mesh_table_len(&self.mesh_sizes)
    }
}

/// Tracking a mesh that was not tracked, then untracking it, leaves the
/// counts and the table as they were.
pub proof fn lemma_track_then_untrack(g: GpuMemoryStats, m: Map<u64, (u64, u64)>, id: u64, v: u64, i: u64)
    requires
        !m.contains_key(id),
        track_fits(g, m, id, v, i),
    ensures
        untrack_mesh_spec(track_mesh_spec(g, m, id, v, i), m.insert(id, (v, i)), id) == g,
        m.insert(id, (v, i)).remove(id) == m,
{
    assert(m.insert(id, (v, i)).remove(id) =~= m);
}

/// Tracking a mesh again replaces its first sizes: the counts are as if only
/// the second sizes had been tracked.
pub proof fn lemma_track_twice(
    g: GpuMemoryStats,
    m: Map<u64, (u64, u64)>,
    id: u64,
    v1: u64,
    i1: u64,
    v2: u64,
    i2: u64,
)
    requires
        !m.contains_key(id),
        track_fits(g, m, id, v1, i1),
        track_fits(g, m, id, v2, i2),
    ensures
        track_mesh_spec(track_mesh_spec(g, m, id, v1, i1), m.insert(id, (v1, i1)), id, v2, i2)
            == track_mesh_spec(g, m, id, v2, i2),
        m.insert(id, (v1, i1)).insert(id, (v2, i2)) == m.insert(id, (v2, i2)),
{
    assert(m.insert(id, (v1, i1)).insert(id, (v2, i2)) =~= m.insert(id, (v2, i2)));
}

} // verus!
