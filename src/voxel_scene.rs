use vstd::prelude::*;

use std::collections::VecDeque;

use crate::coords::{
    chunk_coord_of, chunk_in_range, spec_chunk_coord_of, spec_local_coord_of,
    world_axis, IVec3, UVec3, CHUNK_SIZE, CHUNK_VOLUME,
};
use crate::mesh::{Mesh, Vertex};
use crate::voxel_chunk::{
    faces_vertices, filled_voxels, fresh_chunk, in_local_range, local_index, local_of_index,
    mesh_vertices, meshed, quad_indices, quad_vertex, voxel_world_position, ChunkView,
    VoxelChunk,
};
use crate::voxel_data::VoxelData;

verus! {

/// What a scene holds: its chunks, in storage order, and the coordinates waiting to
/// become chunks, oldest first.
pub struct SceneView {
    pub chunks: Seq<ChunkView>,
    pub queue: Seq<IVec3>,
}

/// No two chunks share a coordinate.
pub open spec fn positions_unique(chunks: Seq<ChunkView>) -> bool {
    forall|i: int, j: int|
        0 <= i < chunks.len() && 0 <= j < chunks.len() && i != j ==> #[trigger] chunks[i].position
            != #[trigger] chunks[j].position
}

pub open spec fn holds_chunk_at(chunks: Seq<ChunkView>, coord: IVec3) -> bool {
    exists|i: int| 0 <= i < chunks.len() && #[trigger] chunks[i].position == coord
}

/// `chunks` with a chunk stored: it replaces the chunk at the same coordinate, if
/// there is one, and is appended otherwise.
pub open spec fn register(chunks: Seq<ChunkView>, c: ChunkView) -> Seq<ChunkView> {
    if holds_chunk_at(chunks, c.position) {
        chunks.update(
            choose|i: int| 0 <= i < chunks.len() && #[trigger] chunks[i].position == c.position,
            c,
        )
    } else {
        chunks.push(c)
    }
}

/// `chunks` after an empty chunk is registered for each queued coordinate, in order.
pub open spec fn register_all(chunks: Seq<ChunkView>, queue: Seq<IVec3>) -> Seq<ChunkView>
    decreases queue.len(),
{
    if queue.len() == 0 {
        chunks
    } else {
        register_all(register(chunks, fresh_chunk(queue[0])), queue.drop_first())
    }
}

/// The rows of a classification table.
pub open spec fn occupancy_rows(occupancy: Seq<Vec<bool>>) -> Seq<Seq<bool>> {
    occupancy.map_values(|row: Vec<bool>| row@)
}

/// Every chunk filled from its row of `occupancy`, then meshed.
pub open spec fn filled_and_meshed(chunks: Seq<ChunkView>, occupancy: Seq<Seq<bool>>) -> Seq<
    ChunkView,
> {
    Seq::new(
        chunks.len(),
        |i: int| meshed(ChunkView { voxels: filled_voxels(occupancy[i]), ..chunks[i] }),
    )
}

/// Chunk-local positions of a mesh lie in `[0, CHUNK_SIZE]`.
pub open spec fn local_vertex(v: Vertex) -> bool {
    0 <= v.position.x <= CHUNK_SIZE && 0 <= v.position.y <= CHUNK_SIZE && 0 <= v.position.z
        <= CHUNK_SIZE
}

/// The chunk's mesh indices refer to its vertices.
pub open spec fn indices_in_range(c: ChunkView) -> bool {
    forall|j: int| 0 <= j < c.indices.len() ==> #[trigger] c.indices[j] < c.vertices.len()
}

/// The chunk's mesh lies inside the chunk and its indices refer to its vertices.
pub open spec fn mesh_well_formed(c: ChunkView) -> bool {
    &&& forall|j: int| 0 <= j < c.vertices.len() ==> local_vertex(#[trigger] c.vertices[j])
    &&& indices_in_range(c)
}

pub open spec fn chunk_well_formed(c: ChunkView) -> bool {
    c.wf() && chunk_in_range(c.position) && mesh_well_formed(c)
}

impl SceneView {
    pub open spec fn wf(self) -> bool {
        &&& positions_unique(self.chunks)
        &&& forall|i: int|
            0 <= i < self.chunks.len() ==> chunk_well_formed(#[trigger] self.chunks[i])
        &&& forall|i: int| 0 <= i < self.queue.len() ==> chunk_in_range(#[trigger] self.queue[i])
    }
}

proof fn lemma_quad_indices(q: nat)
    ensures
        quad_indices(q).len() == 6 * q,
        forall|j: int| 0 <= j < quad_indices(q).len() ==> #[trigger] quad_indices(q)[j] < 4 * q,
    decreases q,
{
    if q > 0 {
        lemma_quad_indices((q - 1) as nat);
        let prev = quad_indices((q - 1) as nat);
        assert forall|j: int| 0 <= j < quad_indices(q).len() implies #[trigger] quad_indices(
            q,
        )[j] < 4 * q by {
            if j < prev.len() {
                assert(quad_indices(q)[j] == prev[j]);
            }
        }
    }
}

proof fn lemma_faces_local(voxels: Seq<VoxelData>, x: int, y: int, z: int, n: int)
    requires
        in_local_range(x, y, z),
        0 <= n <= 6,
    ensures
        faces_vertices(voxels, x, y, z, n).len() % 4 == 0,
        forall|j: int|
            0 <= j < faces_vertices(voxels, x, y, z, n).len() ==> local_vertex(
                #[trigger] faces_vertices(voxels, x, y, z, n)[j],
            ),
    decreases n,
{
    if n > 0 {
        lemma_faces_local(voxels, x, y, z, n - 1);
        let prev = faces_vertices(voxels, x, y, z, n - 1);
        let all = faces_vertices(voxels, x, y, z, n);
        assert forall|j: int| 0 <= j < all.len() implies local_vertex(#[trigger] all[j]) by {
            if j >= prev.len() {
                let k = j - prev.len();
                let a: int = if k == 1 || k == 3 { 1 } else { 0 };
                let b: int = if k >= 2 { 1 } else { 0 };
                assert(all[j] == quad_vertex(x, y, z, n - 1, a, b));
            }
        }
    }
}

proof fn lemma_mesh_local(voxels: Seq<VoxelData>, n: int)
    requires
        0 <= n <= CHUNK_VOLUME,
    ensures
        mesh_vertices(voxels, n).len() % 4 == 0,
        forall|j: int|
            0 <= j < mesh_vertices(voxels, n).len() ==> local_vertex(
                #[trigger] mesh_vertices(voxels, n)[j],
            ),
    decreases n,
{
    if n > 0 {
        lemma_mesh_local(voxels, n - 1);
        let i = n - 1;
        let (x, y, z) = local_of_index(i);
        assert(in_local_range(x, y, z)) by (nonlinear_arith)
            requires
                0 <= i < 512,
                x == i / 64,
                y == (i / 8) % 8,
                z == i % 8,
        ;
        lemma_faces_local(voxels, x, y, z, 6);
        let prev = mesh_vertices(voxels, n - 1);
        let all = mesh_vertices(voxels, n);
        assert forall|j: int| 0 <= j < all.len() implies local_vertex(#[trigger] all[j]) by {
            if j < prev.len() {
                assert(all[j] == prev[j]);
            } else {
                assert(all[j] == faces_vertices(voxels, x, y, z, 6)[j - prev.len()]);
            }
        }
    }
}

/// A generated mesh lies inside its chunk and its indices refer to its vertices.
pub proof fn lemma_meshed_well_formed(c: ChunkView)
    requires
        c.wf(),
    ensures
        mesh_well_formed(meshed(c)),
{
    let v = mesh_vertices(c.voxels, CHUNK_VOLUME as int);
    lemma_mesh_local(c.voxels, CHUNK_VOLUME as int);
    lemma_quad_indices((v.len() / 4) as nat);
}

/// Vertex `v` of the chunk at `c`, moved from chunk-local to world coordinates.
pub open spec fn to_world(v: Vertex, c: IVec3) -> Vertex {
    Vertex {
        position: IVec3 {
            x: (v.position.x + world_axis(c.x, 0)) as i32,
            y: (v.position.y + world_axis(c.y, 0)) as i32,
            z: (v.position.z + world_axis(c.z, 0)) as i32,
        },
        ..v
    }
}

/// The chunk's mesh vertices in world coordinates.
pub open spec fn world_vertices(c: ChunkView) -> Seq<Vertex> {
    c.vertices.map_values(|v: Vertex| to_world(v, c.position))
}

/// World-space vertices of the first `n` chunks, one chunk after another.
pub open spec fn merged_vertices(chunks: Seq<ChunkView>, n: int) -> Seq<Vertex>
    decreases n,
{
    if n <= 0 {
        Seq::empty()
    } else {
        merged_vertices(chunks, n - 1) + world_vertices(chunks[n - 1])
    }
}

/// Indices shifted by `o`, so that they refer to the same vertices after `o` others.
pub open spec fn offset_indices(indices: Seq<u32>, o: int) -> Seq<u32> {
    indices.map_values(|i: u32| (i + o) as u32)
}

/// Indices of the first `n` chunks, each chunk's shifted past the vertices of the
/// chunks before it.
pub open spec fn merged_indices(chunks: Seq<ChunkView>, n: int) -> Seq<u32>
    decreases n,
{
    if n <= 0 {
        Seq::empty()
    } else {
        merged_indices(chunks, n - 1) + offset_indices(
            chunks[n - 1].indices,
            merged_vertices(chunks, n - 1).len() as int,
        )
    }
}

/// Coordinates `(x, y, 0)` to `(x, y, nz - 1)`.
pub open spec fn z_run(x: int, y: int, nz: int) -> Seq<IVec3> {
    Seq::new(nz as nat, |k: int| IVec3 { x: x as i32, y: y as i32, z: k as i32 })
}

/// Coordinates with first axis `x`, by `y` then `z`, below `ny` and `nz`.
pub open spec fn y_slab(x: int, ny: int, nz: int) -> Seq<IVec3>
    decreases ny,
{
    if ny <= 0 {
        Seq::empty()
    } else {
        y_slab(x, ny - 1, nz) + z_run(x, ny - 1, nz)
    }
}

/// The chunk coordinates of the cuboid from the origin below `(nx, ny, nz)`, in scan
/// order: `x` outermost, `z` innermost.
pub open spec fn cuboid_coords(nx: int, ny: int, nz: int) -> Seq<IVec3>
    decreases nx,
{
    if nx <= 0 {
        Seq::empty()
    } else {
        cuboid_coords(nx - 1, ny, nz) + y_slab(nx - 1, ny, nz)
    }
}

proof fn lemma_merged_len_monotone(chunks: Seq<ChunkView>, m: int, n: int)
    requires
        0 <= m <= n <= chunks.len(),
    ensures
        merged_vertices(chunks, m).len() <= merged_vertices(chunks, n).len(),
    decreases n - m,
{
    if m < n {
        lemma_merged_len_monotone(chunks, m, n - 1);
    }
}

/// In the merged mesh, vertex `j` of chunk `k` stands right after the vertices of
/// the chunks before it, moved by the chunk's world origin (its coordinate times
/// `CHUNK_SIZE` on each axis).
pub proof fn lemma_merged_vertex_placement(chunks: Seq<ChunkView>, n: int, k: int, j: int)
    requires
        0 <= k < n <= chunks.len(),
        0 <= j < chunks[k].vertices.len(),
    ensures
        merged_vertices(chunks, k).len() + j < merged_vertices(chunks, n).len(),
        merged_vertices(chunks, n)[merged_vertices(chunks, k).len() + j] == to_world(
            chunks[k].vertices[j],
            chunks[k].position,
        ),
    decreases n,
{
    if n - 1 > k {
        lemma_merged_vertex_placement(chunks, n - 1, k, j);
    }
}

/// Every index of the merged mesh refers to one of its vertices, when each chunk's
/// indices refer to its own vertices and the merged vertices fit `u32` indices.
pub proof fn lemma_merged_indices_in_bounds(chunks: Seq<ChunkView>, n: int)
    requires
        0 <= n <= chunks.len(),
        forall|i: int| 0 <= i < chunks.len() ==> indices_in_range(#[trigger] chunks[i]),
        merged_vertices(chunks, n).len() <= u32::MAX,
    ensures
        forall|j: int|
            0 <= j < merged_indices(chunks, n).len() ==> #[trigger] merged_indices(chunks, n)[j]
                < merged_vertices(chunks, n).len(),
    decreases n,
{
    if n > 0 {
        lemma_merged_len_monotone(chunks, n - 1, n);
        lemma_merged_indices_in_bounds(chunks, n - 1);
        let prev = merged_indices(chunks, n - 1);
        let all = merged_indices(chunks, n);
        let o = merged_vertices(chunks, n - 1).len() as int;
        let c = chunks[n - 1];
        assert forall|j: int| 0 <= j < all.len() implies #[trigger] all[j] < merged_vertices(
            chunks,
            n,
        ).len() by {
            if j >= prev.len() {
                let t = j - prev.len();
                assert(indices_in_range(c));
                assert(c.indices[t] < c.vertices.len());
                assert(all[j] == (c.indices[t] + o) as u32);
            } else {
                assert(all[j] == prev[j]);
            }
        }
    }
}

/// A classification row for the chunk at `c` that gives each voxel the value of
/// `solid` at the voxel's world position.
pub open spec fn row_follows(c: IVec3, row: Seq<bool>, solid: spec_fn(IVec3) -> bool) -> bool {
    &&& row.len() == CHUNK_VOLUME
    &&& forall|i: int|
        0 <= i < CHUNK_VOLUME ==> #[trigger] row[i] == solid(voxel_world_position(c, i))
}

/// Building chunks from the same stored chunks and the same queue, then filling and
/// meshing them from classifications of the same field, gives the same chunks, voxel
/// grids and meshes alike.
pub proof fn lemma_generation_deterministic(
    chunks: Seq<ChunkView>,
    queue: Seq<IVec3>,
    first: Seq<Seq<bool>>,
    second: Seq<Seq<bool>>,
    solid: spec_fn(IVec3) -> bool,
)
    requires
        first.len() == register_all(chunks, queue).len(),
        second.len() == register_all(chunks, queue).len(),
        forall|i: int|
            0 <= i < first.len() ==> row_follows(
                register_all(chunks, queue)[i].position,
                #[trigger] first[i],
                solid,
            ),
        forall|i: int|
            0 <= i < second.len() ==> row_follows(
                register_all(chunks, queue)[i].position,
                #[trigger] second[i],
                solid,
            ),
    ensures
        filled_and_meshed(register_all(chunks, queue), first) == filled_and_meshed(
            register_all(chunks, queue),
            second,
        ),
{
    let built = register_all(chunks, queue);
    assert forall|i: int| 0 <= i < built.len() implies #[trigger] first[i] == second[i] by {
        assert(row_follows(built[i].position, first[i], solid));
        assert(row_follows(built[i].position, second[i], solid));
        assert(first[i] =~= second[i]);
    }
    assert(filled_and_meshed(built, first) =~= filled_and_meshed(built, second));
}

/// Replacing a chunk of a well-formed scene by a well-formed chunk at the same
/// coordinate keeps the scene well-formed.
proof fn lemma_replace_keeps_wf(s: SceneView, i: int)
    requires
        s.wf(),
        0 <= i < s.chunks.len(),
    ensures
        forall|c: ChunkView|
            c.position == s.chunks[i].position && chunk_well_formed(c) ==> (SceneView {
                chunks: #[trigger] s.chunks.update(i, c),
                ..s
            }).wf(),
{
    assert forall|c: ChunkView|
        c.position == s.chunks[i].position && chunk_well_formed(c) implies (SceneView {
            chunks: #[trigger] s.chunks.update(i, c),
            ..s
        }).wf() by {
        let t = s.chunks.update(i, c);
        assert forall|a: int, b: int|
            0 <= a < t.len() && 0 <= b < t.len() && a != b implies #[trigger] t[a].position
            != #[trigger] t[b].position by {
            assert(t[a].position == s.chunks[a].position);
            assert(t[b].position == s.chunks[b].position);
        }
    }
}

pub open spec fn chunk_views(v: Seq<VoxelChunk>) -> Seq<ChunkView> {
    v.map_values(|x: VoxelChunk| x@)
}

proof fn lemma_update_view(v: Seq<VoxelChunk>, i: int)
    requires
        0 <= i < v.len(),
    ensures
        forall|c: VoxelChunk|
            #[trigger] chunk_views(v.update(i, c)) == chunk_views(v).update(i, c@),
{
    assert forall|c: VoxelChunk|
        #[trigger] chunk_views(v.update(i, c)) == chunk_views(v).update(i, c@) by {
        assert(chunk_views(v.update(i, c)) =~= chunk_views(v).update(i, c@));
    }
}

/// A sparse set of chunks keyed by chunk coordinate, with a queue of coordinates that
/// wait to be built.
pub struct VoxelScene {
    chunks: Vec<VoxelChunk>,
    chunk_initialize_queue: VecDeque<IVec3>,
}

impl View for VoxelScene {
    type V = SceneView;

    closed spec fn view(&self) -> SceneView {
        SceneView {
            chunks: chunk_views(self.chunks@),
            queue: self.chunk_initialize_queue@,
        }
    }
}

impl VoxelScene {
    /// A scene without chunks and with an empty queue.
    pub fn new() -> (r: VoxelScene)
        ensures
            r@.wf(),
            r@.chunks.len() == 0,
            r@.queue.len() == 0,
    {
        let r = VoxelScene { chunks: Vec::new(), chunk_initialize_queue: VecDeque::new() };
        assert(r@.chunks =~= Seq::<ChunkView>::empty());
        r
    }

    /// Storage position of the chunk at `coord`, if the scene holds one.
    fn find_chunk(&self, coord: &IVec3) -> (r: Option<usize>)
        ensures
            match r {
                Some(i) => i < self@.chunks.len() && self@.chunks[i as int].position == *coord,
                None => !holds_chunk_at(self@.chunks, *coord),
            },
    {
        let mut i: usize = 0;
        while i < self.chunks.len()
            invariant
                i <= self.chunks@.len(),
                forall|j: int| 0 <= j < i ==> self@.chunks[j].position != *coord,
            decreases self.chunks@.len() - i,
        {
            if self.chunks[i].position() == *coord {
                return Some(i);
            }
            i = i + 1;
        }
        None
    }

    /// Stores a chunk, replacing the one at the same coordinate if there is one.
    fn register_chunk(&mut self, chunk: VoxelChunk)
        requires
            old(self)@.wf(),
            chunk_well_formed(chunk@),
        ensures
            final(self)@.wf(),
            final(self)@ == (SceneView {
                chunks: register(old(self)@.chunks, chunk@),
                ..old(self)@
            }),
    {
        let ghost c = chunk@;
        let ghost old_chunks = self@.chunks;
        match self.find_chunk(&chunk.position()) {
            Some(i) => {
                proof {
                    let k = choose|k: int|
                        0 <= k < old_chunks.len() && #[trigger] old_chunks[k].position
                            == c.position;
                    assert(k == i);
                }
                self.chunks.set(i, chunk);
                assert(self@.chunks =~= register(old_chunks, c));
            },
            None => {
                self.chunks.push(chunk);
                assert(self@.chunks =~= register(old_chunks, c));
            },
        }
    }

    /// Builds an empty chunk for every queued coordinate, in queue order, and empties
    /// the queue. A coordinate queued twice yields one chunk; a chunk already stored at
    /// a queued coordinate is replaced by an empty one.
    pub fn allocate_queued_chunks(&mut self)
        requires
            old(self)@.wf(),
        ensures
            final(self)@.wf(),
            final(self)@.chunks == register_all(old(self)@.chunks, old(self)@.queue),
            final(self)@.queue.len() == 0,
    {
        loop
            invariant
                self@.wf(),
                register_all(self@.chunks, self@.queue) == register_all(
                    old(self)@.chunks,
                    old(self)@.queue,
                ),
            ensures
                self@.queue.len() == 0,
            decreases self@.queue.len(),
        {
            match self.chunk_initialize_queue.pop_front() {
                Some(chunk_pos) => {
                    let chunk = VoxelChunk::new(chunk_pos);
                    self.register_chunk(chunk);
                    assert(self@.queue =~= seq![chunk_pos].add(self@.queue).drop_first());
                },
                None => {
                    break ;
                },
            }
        }
    }

    /// The chunk that holds world position `position`, if the scene has one.
    pub fn chunk_at(&self, position: &IVec3) -> (r: Option<&VoxelChunk>)
        ensures
            match r {
                Some(c) => c@.position == spec_chunk_coord_of(*position) && exists|i: int|
                    0 <= i < self@.chunks.len() && self@.chunks[i] == c@,
                None => !holds_chunk_at(self@.chunks, spec_chunk_coord_of(*position)),
            },
    {
        match self.find_chunk(&chunk_coord_of(position)) {
            Some(i) => Some(&self.chunks[i]),
            None => None,
        }
    }

    /// The chunk that holds world position `position`, for writing, if the scene has
    /// one.
    pub fn chunk_at_mut(&mut self, position: &IVec3) -> (r: Option<&mut VoxelChunk>)
        requires
            old(self)@.wf(),
        ensures
            match r {
                Some(c) => (exists|i: int|
                    0 <= i < old(self)@.chunks.len() && old(self)@.chunks[i] == c@
                        && c@.position == spec_chunk_coord_of(*position) && final(self)@ == (
                    SceneView { chunks: old(self)@.chunks.update(i, final(c)@), ..old(self)@ }))
                    && (final(c)@.position == c@.position && chunk_well_formed(final(c)@)
                    ==> final(self)@.wf()),
                None => !holds_chunk_at(old(self)@.chunks, spec_chunk_coord_of(*position))
                    && final(self)@ == old(self)@,
            },
    {
        match self.find_chunk(&chunk_coord_of(position)) {
            Some(i) => {
                let ghost prev = self.chunks@;
                let ghost prev_view = self@.chunks;
                proof {
                    lemma_update_view(prev, i as int);
                    lemma_replace_keeps_wf(self@, i as int);
                }
                let c = &mut self.chunks[i];
                Some(c)
            },
            None => None,
        }
    }

    /// The voxel at world position `position`, if the scene holds its chunk.
    pub fn voxel_at(&self, position: &IVec3) -> (r: Option<&VoxelData>)
        requires
            self@.wf(),
        ensures
            ({
                let l = spec_local_coord_of(*position);
                match r {
                    Some(v) => exists|i: int|
                        0 <= i < self@.chunks.len() && self@.chunks[i].position
                            == spec_chunk_coord_of(*position) && *v == self@.chunks[i].voxels[
                            local_index(l.x as int, l.y as int, l.z as int)],
                    None => !holds_chunk_at(self@.chunks, spec_chunk_coord_of(*position)),
                }
            }),
    {
        proof {
            crate::coords::lemma_chunk_local_round_trip(*position);
        }
        match self.find_chunk(&chunk_coord_of(position)) {
            Some(i) => {
                let chunk = &self.chunks[i];
                assert(chunk@ == self@.chunks[i as int]);
                assert(chunk_well_formed(chunk@));
                match chunk.voxel_scenespace_at(position) {
                    Some(v) => Some(v),
                    None => None,
                }
            },
            None => None,
        }
    }

    /// The voxel at world position `position`, for writing, if the scene holds its
    /// chunk.
    pub fn voxel_at_mut(&mut self, position: &IVec3) -> (r: Option<&mut VoxelData>)
        requires
            old(self)@.wf(),
        ensures
            ({
                let l = spec_local_coord_of(*position);
                let li = local_index(l.x as int, l.y as int, l.z as int);
                match r {
                    Some(v) => exists|i: int|
                        0 <= i < old(self)@.chunks.len() && old(self)@.chunks[i].position
                            == spec_chunk_coord_of(*position)
                            && *v == old(self)@.chunks[i].voxels[li]
                            && final(self)@ == (SceneView {
                            chunks: old(self)@.chunks.update(
                                i,
                                ChunkView {
                                    voxels: old(self)@.chunks[i].voxels.update(li, *final(v)),
                                    ..old(self)@.chunks[i]
                                },
                            ),
                            ..old(self)@
                        }),
                    None => !holds_chunk_at(old(self)@.chunks, spec_chunk_coord_of(*position))
                        && final(self)@ == old(self)@,
                }
            }),
    {
        proof {
            crate::coords::lemma_chunk_local_round_trip(*position);
        }
        match self.find_chunk(&chunk_coord_of(position)) {
            Some(i) => {
                let ghost prev = self.chunks@;
                proof {
                    lemma_update_view(prev, i as int);
                    assert(chunk_well_formed(prev[i as int]@));
                }
                let chunk = &mut self.chunks[i];
                match chunk.voxel_scenespace_at_mut(position) {
                    Some(v) => Some(v),
                    None => None,
                }
            },
            None => None,
        }
    }

    /// One mesh for the whole scene: every chunk's mesh moved to world coordinates, the
    /// chunks one after another in storage order, each chunk's indices shifted past the
    /// vertices before it. `None` when the vertices are too many for `u32` indices.
    pub fn combined_mesh(&self) -> (r: Option<Mesh>)
        requires
            self@.wf(),
        ensures
            ({
                let n = self@.chunks.len() as int;
                match r {
                    Some(m) => merged_vertices(self@.chunks, n).len() <= u32::MAX
                        && m.vertices@ == merged_vertices(self@.chunks, n) && m.indices@
                        == merged_indices(self@.chunks, n) && m.indices_in_bounds(),
                    None => merged_vertices(self@.chunks, n).len() > u32::MAX,
                }
            }),
    {
        let ghost chunks = self@.chunks;
        let mut vertices: Vec<Vertex> = Vec::new();
        let mut indices: Vec<u32> = Vec::new();
        let mut i: usize = 0;
        while i < self.chunks.len()
            invariant
                chunks == self@.chunks,
                self@.wf(),
                i <= chunks.len(),
                vertices@ == merged_vertices(chunks, i as int),
                indices@ == merged_indices(chunks, i as int),
                vertices@.len() <= u32::MAX,
            decreases chunks.len() - i,
        {
            let chunk = &self.chunks[i];
            assert(chunk@ == chunks[i as int]);
            assert(chunk_well_formed(chunk@));
            let mesh = chunk.mesh();
            let origin = chunk.scenespace_pos();
            let base = vertices.len();
            if mesh.vertices.len() > u32::MAX as usize - base {
                proof {
                    lemma_merged_len_monotone(chunks, i as int + 1, chunks.len() as int);
                }
                return None;
            }
            let ghost v0 = vertices@;
            let ghost i0 = indices@;
            let mut j: usize = 0;
            while j < mesh.vertices.len()
                invariant
                    chunk_well_formed(chunk@),
                    mesh.vertices@ == chunk@.vertices,
                    origin.x == world_axis(chunk@.position.x, 0),
                    origin.y == world_axis(chunk@.position.y, 0),
                    origin.z == world_axis(chunk@.position.z, 0),
                    j <= mesh.vertices@.len(),
                    vertices@ == v0 + world_vertices(chunk@).subrange(0, j as int),
                decreases mesh.vertices@.len() - j,
            {
                let v = mesh.vertices[j];
                assert(local_vertex(chunk@.vertices[j as int]));
                let w = Vertex {
                    position: IVec3 {
                        x: v.position.x + origin.x,
                        y: v.position.y + origin.y,
                        z: v.position.z + origin.z,
                    },
                    ..v
                };
                vertices.push(w);
                assert(vertices@ =~= v0 + world_vertices(chunk@).subrange(0, j + 1));
                j = j + 1;
            }
            assert(world_vertices(chunk@).subrange(0, j as int) =~= world_vertices(chunk@));
            let offset = base as u32;
            let ghost shifted = offset_indices(chunk@.indices, offset as int);
            let mut k: usize = 0;
            while k < mesh.indices.len()
                invariant
                    chunk_well_formed(chunk@),
                    mesh.indices@ == chunk@.indices,
                    mesh.vertices@ == chunk@.vertices,
                    offset as int + mesh.vertices@.len() <= u32::MAX,
                    k <= mesh.indices@.len(),
                    shifted == offset_indices(chunk@.indices, offset as int),
                    indices@ == i0 + shifted.subrange(0, k as int),
                decreases mesh.indices@.len() - k,
            {
                let idx = mesh.indices[k];
                assert(chunk@.indices[k as int] < chunk@.vertices.len());
                indices.push(idx + offset);
                assert(indices@ =~= i0 + shifted.subrange(0, k + 1));
                k = k + 1;
            }
            assert(shifted.subrange(0, k as int) =~= shifted);
            i = i + 1;
        }
        proof {
            assert forall|c: int| 0 <= c < chunks.len() implies indices_in_range(
                #[trigger] chunks[c],
            ) by {
                assert(chunk_well_formed(chunks[c]));
            }
            lemma_merged_indices_in_bounds(chunks, chunks.len() as int);
        }
        Some(Mesh { vertices, indices })
    }

    /// Queues every chunk coordinate of the cuboid from the origin below `size`, `x`
    /// outermost and `z` innermost.
    pub fn initialize_volume(&mut self, size: &UVec3)
        requires
            old(self)@.wf(),
            size.x * CHUNK_SIZE <= i32::MAX,
            size.y * CHUNK_SIZE <= i32::MAX,
            size.z * CHUNK_SIZE <= i32::MAX,
        ensures
            final(self)@.wf(),
            final(self)@ == (SceneView {
                queue: old(self)@.queue + cuboid_coords(
                    size.x as int,
                    size.y as int,
                    size.z as int,
                ),
                ..old(self)@
            }),
    {
        let ghost start = self@;
        let mut x: u32 = 0;
        while x < size.x
            invariant
                x <= size.x,
                size.x * CHUNK_SIZE <= i32::MAX,
                size.y * CHUNK_SIZE <= i32::MAX,
                size.z * CHUNK_SIZE <= i32::MAX,
                self@.wf(),
                self@ == (SceneView {
                    queue: start.queue + cuboid_coords(x as int, size.y as int, size.z as int),
                    ..start
                }),
            decreases size.x - x,
        {
            let mut y: u32 = 0;
            while y < size.y
                invariant
                    x < size.x,
                    y <= size.y,
                    size.x * CHUNK_SIZE <= i32::MAX,
                    size.y * CHUNK_SIZE <= i32::MAX,
                    size.z * CHUNK_SIZE <= i32::MAX,
                    self@.wf(),
                    self@ == (SceneView {
                        queue: start.queue + cuboid_coords(x as int, size.y as int, size.z as int)
                            + y_slab(x as int, y as int, size.z as int),
                        ..start
                    }),
                decreases size.y - y,
            {
                let mut z: u32 = 0;
                while z < size.z
                    invariant
                        x < size.x,
                        y < size.y,
                        z <= size.z,
                        size.x * CHUNK_SIZE <= i32::MAX,
                        size.y * CHUNK_SIZE <= i32::MAX,
                        size.z * CHUNK_SIZE <= i32::MAX,
                        self@.wf(),
                        self@ == (SceneView {
                            queue: start.queue + cuboid_coords(
                                x as int,
                                size.y as int,
                                size.z as int,
                            ) + y_slab(x as int, y as int, size.z as int) + z_run(
                                x as int,
                                y as int,
                                z as int,
                            ),
                            ..start
                        }),
                    decreases size.z - z,
                {
                    let p = IVec3 { x: x as i32, y: y as i32, z: z as i32 };
                    self.initialize_chunk(&p);
                    assert(z_run(x as int, y as int, z + 1) =~= z_run(
                        x as int,
                        y as int,
                        z as int,
                    ).push(p));
                    z = z + 1;
                }
                proof {
                    let done = start.queue + cuboid_coords(x as int, size.y as int, size.z as int);
                    let (xi, yi, nz) = (x as int, y as int, size.z as int);
                    assert(done + y_slab(xi, yi + 1, nz) =~= done + y_slab(xi, yi, nz) + z_run(
                        xi,
                        yi,
                        nz,
                    ));
                }
                y = y + 1;
            }
            proof {
                let (xi, ny, nz) = (x as int, size.y as int, size.z as int);
                assert(start.queue + cuboid_coords(xi + 1, ny, nz) =~= start.queue
                    + cuboid_coords(xi, ny, nz) + y_slab(xi, ny, nz));
            }
            x = x + 1;
        }
    }

    /// Coordinates of the stored chunks, in storage order.
    pub fn chunk_positions(&self) -> (r: Vec<IVec3>)
        ensures
            r@.len() == self@.chunks.len(),
            forall|i: int| 0 <= i < r@.len() ==> r@[i] == #[trigger] self@.chunks[i].position,
    {
        let mut r: Vec<IVec3> = Vec::new();
        let mut i: usize = 0;
        while i < self.chunks.len()
            invariant
                i <= self.chunks@.len(),
                r@.len() == i,
                forall|j: int| 0 <= j < i ==> r@[j] == #[trigger] self@.chunks[j].position,
            decreases self.chunks@.len() - i,
        {
            r.push(self.chunks[i].position());
            i = i + 1;
        }
        r
    }

    /// Fills every stored chunk from its row of `occupancy` (rows in storage order,
    /// each indexed by `local_index`; `true` is solid) and regenerates its mesh.
    pub fn fill_and_mesh(&mut self, occupancy: &Vec<Vec<bool>>)
        requires
            old(self)@.wf(),
            occupancy@.len() == old(self)@.chunks.len(),
            forall|i: int|
                0 <= i < occupancy@.len() ==> #[trigger] occupancy@[i]@.len() == CHUNK_VOLUME,
        ensures
            final(self)@.wf(),
            final(self)@ == (SceneView {
                chunks: filled_and_meshed(old(self)@.chunks, occupancy_rows(occupancy@)),
                ..old(self)@
            }),
    {
        let ghost start = self@;
        let ghost target = filled_and_meshed(start.chunks, occupancy_rows(occupancy@));
        let mut i: usize = 0;
        while i < self.chunks.len()
            invariant
                i <= self@.chunks.len(),
                self@.chunks.len() == start.chunks.len(),
                self@.queue == start.queue,
                start.wf(),
                target == filled_and_meshed(start.chunks, occupancy_rows(occupancy@)),
                occupancy@.len() == start.chunks.len(),
                forall|k: int|
                    0 <= k < occupancy@.len() ==> #[trigger] occupancy@[k]@.len() == CHUNK_VOLUME,
                forall|j: int| 0 <= j < i ==> #[trigger] self@.chunks[j] == target[j],
                forall|j: int|
                    i <= j < self@.chunks.len() ==> #[trigger] self@.chunks[j] == start.chunks[j],
            decreases self.chunks@.len() - i,
        {
            let ghost c = start.chunks[i as int];
            assert(self@.chunks[i as int] == c);
            let ghost prev = self.chunks@;
            let ghost prev_view = self@.chunks;
            assert forall|j: int| 0 <= j < prev.len() implies prev_view[j] == prev[j]@ by {}
            self.chunks[i].fill_occupancy(&occupancy[i]);
            self.chunks[i].generate_mesh();
            proof {
                assert forall|j: int|
                    0 <= j < prev.len() && j != i implies #[trigger] self@.chunks[j]
                    == prev_view[j] by {
                    assert(self.chunks@[j] == prev[j]);
                    assert(self@.chunks[j] == self.chunks@[j]@);
                }
                let filled = ChunkView { voxels: filled_voxels(occupancy@[i as int]@), ..c };
                lemma_meshed_well_formed(filled);
                assert(self@.chunks[i as int] == target[i as int]);
            }
            i = i + 1;
        }
        assert(self@.chunks =~= target);
        proof {
            assert forall|j: int| 0 <= j < target.len() implies chunk_well_formed(
                #[trigger] target[j],
            ) by {
                let filled = ChunkView { voxels: filled_voxels(occupancy@[j]@), ..start.chunks[j] };
                lemma_meshed_well_formed(filled);
            }
        }
    }

    /// Queues a chunk coordinate to be built by the next `allocate_queued_chunks`.
    /// The queue keeps duplicates.
    pub fn initialize_chunk(&mut self, position: &IVec3)
        requires
            old(self)@.wf(),
            chunk_in_range(*position),
        ensures
            final(self)@.wf(),
            final(self)@ == (SceneView { queue: old(self)@.queue.push(*position), ..old(self)@ }),
    {
        self.chunk_initialize_queue.push_back(*position);
    }
}

} // verus!
