use vstd::prelude::*;

use crate::coords::{
    chunk_in_range, world_axis, IVec3, UVec3, CHUNK_SIZE, CHUNK_VOLUME,
};
use crate::mesh::{Mesh, TexCoord, Vertex};
use crate::voxel_data::voxel_shapes;
use crate::voxel_data::{VoxelData, VoxelShape};

verus! {

/// Position of local voxel `(x, y, z)` in a chunk's voxel sequence: `x` outermost,
/// `z` innermost.
pub open spec fn local_index(x: int, y: int, z: int) -> int {
    (x * (CHUNK_SIZE as int) + y) * (CHUNK_SIZE as int) + z
}

pub open spec fn in_local_range(x: int, y: int, z: int) -> bool {
    0 <= x < CHUNK_SIZE && 0 <= y < CHUNK_SIZE && 0 <= z < CHUNK_SIZE
}

/// Local position of the voxel at `i` in a chunk's voxel sequence.
pub open spec fn local_of_index(i: int) -> (int, int, int) {
    let s = CHUNK_SIZE as int;
    (i / (s * s), (i / s) % s, i % s)
}

/// Shape every voxel of a filled chunk gets: solid or empty.
pub open spec fn occupancy_shape(solid: bool) -> VoxelShape {
    if solid {
        VoxelShape { data: voxel_shapes::ALL }
    } else {
        VoxelShape { data: voxel_shapes::EMPTY }
    }
}

// The six faces of a voxel: 0 north (+z), 1 south (-z), 2 east (+x), 3 west (-x),
// 4 top (+y), 5 bottom (-y).
pub open spec fn face_normal(f: int) -> (int, int, int) {
    if f == 0 {
        (0, 0, 1)
    } else if f == 1 {
        (0, 0, -1)
    } else if f == 2 {
        (1, 0, 0)
    } else if f == 3 {
        (-1, 0, 0)
    } else if f == 4 {
        (0, 1, 0)
    } else {
        (0, -1, 0)
    }
}

/// Octants of the neighbour across face `f` that hide that face.
pub open spec fn face_cover(f: int) -> u8 {
    if f == 0 {
        voxel_shapes::SOUTH
    } else if f == 1 {
        voxel_shapes::NORTH
    } else if f == 2 {
        voxel_shapes::WEST
    } else if f == 3 {
        voxel_shapes::EAST
    } else if f == 4 {
        voxel_shapes::BOTTOM
    } else {
        voxel_shapes::TOP
    }
}

/// Corner of the unit cube for texture coordinate `(a, b)` of face `f`.
pub open spec fn face_corner(f: int, a: int, b: int) -> (int, int, int) {
    if f == 0 {
        (1 - a, b, 1)
    } else if f == 1 {
        (a, b, 0)
    } else if f == 2 {
        (1, b, a)
    } else if f == 3 {
        (0, b, 1 - a)
    } else if f == 4 {
        (a, 1, b)
    } else {
        (a, 0, 1 - b)
    }
}

/// Face `f` of the voxel at `(x, y, z)` is seen: its neighbour lies outside the chunk,
/// or does not hold the octants that would cover the face.
pub open spec fn face_visible(voxels: Seq<VoxelData>, x: int, y: int, z: int, f: int) -> bool {
    let n = face_normal(f);
    let (nx, ny, nz) = (x + n.0, y + n.1, z + n.2);
    !(in_local_range(nx, ny, nz) && voxels[local_index(nx, ny, nz)].shape.spec_contains(
        VoxelShape { data: face_cover(f) },
    ))
}

pub open spec fn quad_vertex(x: int, y: int, z: int, f: int, a: int, b: int) -> Vertex {
    let c = face_corner(f, a, b);
    let n = face_normal(f);
    Vertex {
        position: IVec3 { x: (x + c.0) as i32, y: (y + c.1) as i32, z: (z + c.2) as i32 },
        color: UVec3 { x: 1, y: 1, z: 1 },
        normal: IVec3 { x: n.0 as i32, y: n.1 as i32, z: n.2 as i32 },
        uv: TexCoord { u: a as u32, v: b as u32 },
    }
}

/// The four corners of face `f` of the voxel at `(x, y, z)`.
pub open spec fn quad_vertices(x: int, y: int, z: int, f: int) -> Seq<Vertex> {
    seq![
        quad_vertex(x, y, z, f, 0, 0),
        quad_vertex(x, y, z, f, 1, 0),
        quad_vertex(x, y, z, f, 0, 1),
        quad_vertex(x, y, z, f, 1, 1),
    ]
}

/// Vertices of the visible faces among the first `n` faces of a voxel.
pub open spec fn faces_vertices(voxels: Seq<VoxelData>, x: int, y: int, z: int, n: int) -> Seq<
    Vertex,
>
    decreases n,
{
    if n <= 0 {
        Seq::empty()
    } else {
        faces_vertices(voxels, x, y, z, n - 1) + if face_visible(voxels, x, y, z, n - 1) {
            quad_vertices(x, y, z, n - 1)
        } else {
            Seq::empty()
        }
    }
}

/// Vertices that the voxel at `i` contributes: none when it is empty.
pub open spec fn voxel_vertices(voxels: Seq<VoxelData>, i: int) -> Seq<Vertex> {
    let (x, y, z) = local_of_index(i);
    if voxels[i].shape == (VoxelShape { data: voxel_shapes::EMPTY }) {
        Seq::empty()
    } else {
        faces_vertices(voxels, x, y, z, 6)
    }
}

/// Vertices that the first `n` voxels contribute, in voxel order.
pub open spec fn mesh_vertices(voxels: Seq<VoxelData>, n: int) -> Seq<Vertex>
    decreases n,
{
    if n <= 0 {
        Seq::empty()
    } else {
        mesh_vertices(voxels, n - 1) + voxel_vertices(voxels, n - 1)
    }
}

/// The six indices of one quad whose first vertex is `b`: two triangles wound
/// `0, 2, 1` and `1, 2, 3` from that vertex.
pub open spec fn quad_index_pattern(b: int) -> Seq<u32> {
    seq![b as u32, (b + 2) as u32, (b + 1) as u32, (b + 1) as u32, (b + 2) as u32, (b + 3) as u32]
}

/// Indices of `q` quads laid out four vertices each, the first quad starting at vertex
/// `base`.
pub open spec fn quad_indices_from(base: int, q: nat) -> Seq<u32>
    decreases q,
{
    if q == 0 {
        Seq::empty()
    } else {
        quad_indices_from(base, (q - 1) as nat) + quad_index_pattern(base + 4 * (q - 1))
    }
}

/// Indices of `q` quads laid out four vertices each from the first vertex.
pub open spec fn quad_indices(q: nat) -> Seq<u32> {
    quad_indices_from(0, q)
}

proof fn lemma_quad_indices_concat(b: int, m: nat, k: nat)
    ensures
        quad_indices_from(b, m) + quad_indices_from(b + 4 * m, k) == quad_indices_from(b, m + k),
    decreases k,
{
    if k == 0 {
        assert(quad_indices_from(b, m) + quad_indices_from(b + 4 * m, k) =~= quad_indices_from(
            b,
            m + k,
        ));
    } else {
        lemma_quad_indices_concat(b, m, (k - 1) as nat);
        assert(quad_indices_from(b, m) + quad_indices_from(b + 4 * m, k) =~= quad_indices_from(
            b,
            m + k,
        ));
    }
}

/// What a chunk holds: its coordinate, its voxels indexed by `local_index`, and its
/// mesh.
pub struct ChunkView {
    pub position: IVec3,
    pub voxels: Seq<VoxelData>,
    pub vertices: Seq<Vertex>,
    pub indices: Seq<u32>,
}

impl ChunkView {
    pub open spec fn wf(self) -> bool {
        self.voxels.len() == CHUNK_VOLUME
    }
}

proof fn lemma_six_faces(voxels: Seq<VoxelData>, x: int, y: int, z: int, n: int)
    requires
        0 <= n <= 6,
        forall|f: int| 0 <= f < 6 ==> #[trigger] face_visible(voxels, x, y, z, f),
    ensures
        faces_vertices(voxels, x, y, z, n).len() == 4 * n,
    decreases n,
{
    if n > 0 {
        lemma_six_faces(voxels, x, y, z, n - 1);
        assert(face_visible(voxels, x, y, z, n - 1));
    }
}

/// A non-empty voxel whose six neighbours are empty or lie outside the chunk
/// contributes one quad per face to the chunk's mesh: 24 vertices.
pub proof fn lemma_isolated_voxel_six_quads(voxels: Seq<VoxelData>, x: int, y: int, z: int)
    requires
        voxels.len() == CHUNK_VOLUME,
        in_local_range(x, y, z),
        voxels[local_index(x, y, z)].shape != (VoxelShape { data: voxel_shapes::EMPTY }),
        forall|f: int|
            0 <= f < 6 && in_local_range(
                x + face_normal(f).0,
                y + face_normal(f).1,
                z + face_normal(f).2,
            ) ==> #[trigger] voxels[local_index(
                x + face_normal(f).0,
                y + face_normal(f).1,
                z + face_normal(f).2,
            )].shape == (VoxelShape { data: voxel_shapes::EMPTY }),
    ensures
        voxel_vertices(voxels, local_index(x, y, z)).len() == 24,
{
    assert forall|f: int| 0 <= f < 6 implies #[trigger] face_visible(voxels, x, y, z, f) by {
        let c = face_cover(f);
        assert(c != 0);
        assert(0u8 & c != c) by (bit_vector)
            requires
                c != 0,
        ;
    }
    lemma_six_faces(voxels, x, y, z, 6);
    let i = local_index(x, y, z);
    assert(local_of_index(i) == (x, y, z)) by (nonlinear_arith)
        requires
            0 <= x < 8,
            0 <= y < 8,
            0 <= z < 8,
            i == (x * 8 + y) * 8 + z,
            local_of_index(i) == (i / 64, (i / 8) % 8, i % 8),
    ;
}

/// In a chunk whose voxels are all fully solid, a face of a voxel is emitted exactly
/// when it lies on the chunk's boundary: no face between two solid voxels is emitted.
pub proof fn lemma_solid_chunk_faces(voxels: Seq<VoxelData>, x: int, y: int, z: int, f: int)
    requires
        voxels.len() == CHUNK_VOLUME,
        forall|i: int|
            0 <= i < CHUNK_VOLUME ==> #[trigger] voxels[i].shape == (VoxelShape {
                data: voxel_shapes::ALL,
            }),
        in_local_range(x, y, z),
        0 <= f < 6,
    ensures
        face_visible(voxels, x, y, z, f) == !in_local_range(
            x + face_normal(f).0,
            y + face_normal(f).1,
            z + face_normal(f).2,
        ),
{
    let n = face_normal(f);
    let (nx, ny, nz) = (x + n.0, y + n.1, z + n.2);
    if in_local_range(nx, ny, nz) {
        let j = local_index(nx, ny, nz);
        assert(0 <= j < 512) by (nonlinear_arith)
            requires
                0 <= nx < 8,
                0 <= ny < 8,
                0 <= nz < 8,
                j == (nx * 8 + ny) * 8 + nz,
        ;
        let c = face_cover(f);
        assert(0xffu8 & c == c) by (bit_vector);
    }
}

/// World position of the voxel at `i` in the chunk at `c`.
pub open spec fn voxel_world_position(c: IVec3, i: int) -> IVec3 {
    IVec3 {
        x: world_axis(c.x, local_of_index(i).0 as u32) as i32,
        y: world_axis(c.y, local_of_index(i).1 as u32) as i32,
        z: world_axis(c.z, local_of_index(i).2 as u32) as i32,
    }
}

/// Voxels of a chunk filled from a solid/empty classification.
pub open spec fn filled_voxels(solid: Seq<bool>) -> Seq<VoxelData> {
    Seq::new(solid.len(), |i: int| VoxelData { shape: occupancy_shape(solid[i]) })
}

/// `c` with its mesh generated from its voxels.
pub open spec fn meshed(c: ChunkView) -> ChunkView {
    let v = mesh_vertices(c.voxels, CHUNK_VOLUME as int);
    ChunkView { vertices: v, indices: quad_indices((v.len() / 4) as nat), ..c }
}

/// A chunk at `position` with every voxel empty and an empty mesh.
pub open spec fn fresh_chunk(position: IVec3) -> ChunkView {
    ChunkView {
        position,
        voxels: Seq::new(
            CHUNK_VOLUME as nat,
            |i: int| VoxelData { shape: VoxelShape { data: voxel_shapes::EMPTY } },
        ),
        vertices: Seq::empty(),
        indices: Seq::empty(),
    }
}

/// A cube of `CHUNK_SIZE`³ voxels at a chunk coordinate, with its mesh.
pub struct VoxelChunk {
    position: IVec3,
    mesh: Mesh,
    voxels: Vec<VoxelData>,
}

impl View for VoxelChunk {
    type V = ChunkView;

    closed spec fn view(&self) -> ChunkView {
        ChunkView {
            position: self.position,
            voxels: self.voxels@,
            vertices: self.mesh.vertices@,
            indices: self.mesh.indices@,
        }
    }
}

impl VoxelChunk {
    /// An empty chunk at `position`, with an empty mesh.
    pub fn new(position: IVec3) -> (r: VoxelChunk)
        ensures
            r@ == fresh_chunk(position),
    {
        let mut voxels: Vec<VoxelData> = Vec::new();
        let mut i: usize = 0;
        while i < CHUNK_VOLUME
            invariant
                i <= CHUNK_VOLUME,
                voxels@.len() == i,
                forall|j: int|
                    0 <= j < i ==> #[trigger] voxels@[j] == (VoxelData {
                        shape: VoxelShape { data: voxel_shapes::EMPTY },
                    }),
            decreases CHUNK_VOLUME - i,
        {
            voxels.push(VoxelData { shape: VoxelShape::new(voxel_shapes::EMPTY) });
            i = i + 1;
        }
        let r = VoxelChunk { position, mesh: Mesh::new(), voxels };
        assert(r@.voxels =~= fresh_chunk(position).voxels);
        assert(r@.vertices =~= Seq::<Vertex>::empty());
        assert(r@.indices =~= Seq::<u32>::empty());
        r
    }

    pub fn position(&self) -> (r: IVec3)
        ensures
            r == self@.position,
    {
        self.position
    }

    pub fn mesh(&self) -> (r: &Mesh)
        ensures
            r.vertices@ == self@.vertices,
            r.indices@ == self@.indices,
    {
        &self.mesh
    }

    /// World position of the chunk's first voxel.
    pub fn scenespace_pos(&self) -> (r: IVec3)
        requires
            chunk_in_range(self@.position),
        ensures
            r.x == world_axis(self@.position.x, 0),
            r.y == world_axis(self@.position.y, 0),
            r.z == world_axis(self@.position.z, 0),
    {
        let s = CHUNK_SIZE as i32;
        IVec3 { x: self.position.x * s, y: self.position.y * s, z: self.position.z * s }
    }

    /// The voxel at a local position.
    pub fn voxel_at(&self, position: &UVec3) -> (r: &VoxelData)
        requires
            self@.wf(),
            position.in_chunk(),
        ensures
            *r == self@.voxels[local_index(
                position.x as int,
                position.y as int,
                position.z as int,
            )],
    {
        &self.voxels[index_of(position)]
    }

    /// The voxel at a local position, for writing.
    pub fn voxel_at_mut(&mut self, position: &UVec3) -> (r: &mut VoxelData)
        requires
            old(self)@.wf(),
            position.in_chunk(),
        ensures
            *r == old(self)@.voxels[local_index(
                position.x as int,
                position.y as int,
                position.z as int,
            )],
            final(self)@ == (ChunkView {
                voxels: old(self)@.voxels.update(
                    local_index(position.x as int, position.y as int, position.z as int),
                    *final(r),
                ),
                ..old(self)@
            }),
    {
        let i = index_of(position);
        &mut self.voxels[i]
    }

    /// Sets the shape of the voxel at a local position.
    pub fn set_voxel_shape(&mut self, position: &UVec3, shape: VoxelShape)
        requires
            old(self)@.wf(),
            position.in_chunk(),
        ensures
            final(self)@ == (ChunkView {
                voxels: old(self)@.voxels.update(
                    local_index(position.x as int, position.y as int, position.z as int),
                    VoxelData { shape },
                ),
                ..old(self)@
            }),
    {
        self.voxels.set(index_of(position), VoxelData { shape });
    }

    /// Local position, in i64, of world position `p` relative to this chunk.
    fn localize(&self, p: &IVec3) -> (r: (i64, i64, i64))
        ensures
            r.0 == p.x - world_axis(self@.position.x, 0),
            r.1 == p.y - world_axis(self@.position.y, 0),
            r.2 == p.z - world_axis(self@.position.z, 0),
    {
        let s = CHUNK_SIZE as i64;
        (
            p.x as i64 - self.position.x as i64 * s,
            p.y as i64 - self.position.y as i64 * s,
            p.z as i64 - self.position.z as i64 * s,
        )
    }

    /// The voxel at a world position, or `None` where the position lies outside this
    /// chunk.
    pub fn voxel_scenespace_at(&self, position: &IVec3) -> (r: Option<&VoxelData>)
        requires
            self@.wf(),
        ensures
            ({
                let (lx, ly, lz) = (
                    position.x - world_axis(self@.position.x, 0),
                    position.y - world_axis(self@.position.y, 0),
                    position.z - world_axis(self@.position.z, 0),
                );
                match r {
                    Some(v) => in_local_range(lx, ly, lz) && *v == self@.voxels[local_index(
                        lx,
                        ly,
                        lz,
                    )],
                    None => !in_local_range(lx, ly, lz),
                }
            }),
    {
        let (lx, ly, lz) = self.localize(position);
        let s = CHUNK_SIZE as i64;
        if lx >= s || ly >= s || lz >= s || lx < 0 || ly < 0 || lz < 0 {
            return None;
        }
        Some(self.voxel_at(&UVec3 { x: lx as u32, y: ly as u32, z: lz as u32 }))
    }

    /// The voxel at a world position, for writing, or `None` where the position lies
    /// outside this chunk.
    pub fn voxel_scenespace_at_mut(&mut self, position: &IVec3) -> (r: Option<&mut VoxelData>)
        requires
            old(self)@.wf(),
        ensures
            ({
                let (lx, ly, lz) = (
                    position.x - world_axis(old(self)@.position.x, 0),
                    position.y - world_axis(old(self)@.position.y, 0),
                    position.z - world_axis(old(self)@.position.z, 0),
                );
                match r {
                    Some(v) => in_local_range(lx, ly, lz) && *v == old(self)@.voxels[local_index(
                        lx,
                        ly,
                        lz,
                    )] && final(self)@ == (ChunkView {
                        voxels: old(self)@.voxels.update(local_index(lx, ly, lz), *final(v)),
                        ..old(self)@
                    }),
                    None => !in_local_range(lx, ly, lz) && final(self)@ == old(self)@,
                }
            }),
    {
        let (lx, ly, lz) = self.localize(position);
        let s = CHUNK_SIZE as i64;
        if lx >= s || ly >= s || lz >= s || lx < 0 || ly < 0 || lz < 0 {
            return None;
        }
        Some(self.voxel_at_mut(&UVec3 { x: lx as u32, y: ly as u32, z: lz as u32 }))
    }

    /// Sets every voxel from a solid/empty classification indexed by `local_index`:
    /// solid voxels become fully occupied, the others empty. The mesh is left as it is.
    pub fn fill_occupancy(&mut self, solid: &Vec<bool>)
        requires
            old(self)@.wf(),
            solid@.len() == CHUNK_VOLUME,
        ensures
            final(self)@ == (ChunkView { voxels: filled_voxels(solid@), ..old(self)@ }),
    {
        let ghost start = self@;
        let mut i: usize = 0;
        while i < CHUNK_VOLUME
            invariant
                i <= CHUNK_VOLUME,
                solid@.len() == CHUNK_VOLUME,
                self@.voxels.len() == CHUNK_VOLUME,
                self@ == (ChunkView { voxels: self@.voxels, ..start }),
                forall|j: int|
                    0 <= j < i ==> #[trigger] self@.voxels[j] == filled_voxels(solid@)[j],
            decreases CHUNK_VOLUME - i,
        {
            let shape = if solid[i] {
                VoxelShape::new(voxel_shapes::ALL)
            } else {
                VoxelShape::new(voxel_shapes::EMPTY)
            };
            self.voxels.set(i, VoxelData { shape });
            i = i + 1;
        }
        assert(self@.voxels =~= filled_voxels(solid@));
    }

    /// Replaces the mesh with one quad for every visible face of every non-empty voxel.
    pub fn generate_mesh(&mut self)
        requires
            old(self)@.wf(),
        ensures
            final(self)@ == meshed(old(self)@),
    {
        let mut vertices: Vec<Vertex> = Vec::new();
        let mut indices: Vec<u32> = Vec::new();
        let ghost voxels = self@.voxels;
        let s = CHUNK_SIZE as usize;
        let mut i: usize = 0;
        while i < CHUNK_VOLUME
            invariant
                self@.wf(),
                self@.voxels == voxels,
                s == CHUNK_SIZE,
                i <= CHUNK_VOLUME,
                vertices@ == mesh_vertices(voxels, i as int),
                vertices@.len() % 4 == 0,
                vertices@.len() <= 24 * i,
                indices@ == quad_indices((vertices@.len() / 4) as nat),
            decreases CHUNK_VOLUME - i,
        {
            let x = i / (s * s);
            let y = (i / s) % s;
            let z = i % s;
            assert(x < 8) by (nonlinear_arith)
                requires
                    x == i / 64,
                    i < 512,
            ;
            if self.voxels[i].shape.data != voxel_shapes::EMPTY {
                let pos = UVec3 { x: x as u32, y: y as u32, z: z as u32 };
                let ghost m = (vertices@.len() / 4) as nat;
                generate_faces(self, &pos, &mut vertices, &mut indices);
                proof {
                    let added = faces_vertices(voxels, x as int, y as int, z as int, 6);
                    let k = (added.len() / 4) as nat;
                    lemma_quad_indices_concat(0, m, k);
                    assert((vertices@.len() / 4) as nat == m + k);
                }
            }
            assert(vertices@ =~= mesh_vertices(voxels, i + 1));
            i = i + 1;
        }
        self.mesh = Mesh { vertices, indices };
    }
}

/// World positions of the voxels of the chunk at `chunk`, in `local_index` order: the
/// order in which `fill_occupancy` reads its classification.
pub fn voxel_world_positions(chunk: &IVec3) -> (r: Vec<IVec3>)
    requires
        chunk_in_range(*chunk),
    ensures
        r@.len() == CHUNK_VOLUME,
        forall|i: int| 0 <= i < CHUNK_VOLUME ==> r@[i] == voxel_world_position(*chunk, i),
{
    let s = CHUNK_SIZE as i32;
    let (ox, oy, oz) = (chunk.x * s, chunk.y * s, chunk.z * s);
    let mut r: Vec<IVec3> = Vec::new();
    let mut i: usize = 0;
    while i < CHUNK_VOLUME
        invariant
            chunk_in_range(*chunk),
            ox == world_axis(chunk.x, 0),
            oy == world_axis(chunk.y, 0),
            oz == world_axis(chunk.z, 0),
            i <= CHUNK_VOLUME,
            r@.len() == i,
            forall|j: int| 0 <= j < i ==> r@[j] == voxel_world_position(*chunk, j),
        decreases CHUNK_VOLUME - i,
    {
        let x = i / 64;
        let y = (i / 8) % 8;
        let z = i % 8;
        assert(x < 8) by (nonlinear_arith)
            requires
                x == i / 64,
                i < 512,
        ;
        r.push(IVec3 { x: ox + x as i32, y: oy + y as i32, z: oz + z as i32 });
        i = i + 1;
    }
    r
}

/// Position of a local voxel in a chunk's voxel sequence.
fn index_of(position: &UVec3) -> (r: usize)
    requires
        position.in_chunk(),
    ensures
        r == local_index(position.x as int, position.y as int, position.z as int),
        r < CHUNK_VOLUME,
{
    let (x, y, z) = (position.x as usize, position.y as usize, position.z as usize);
    assert((x * 8 + y) * 8 + z < 512) by (nonlinear_arith)
        requires
            x < 8,
            y < 8,
            z < 8,
    ;
    (x * 8 + y) * 8 + z
}

/// Outward normal of face `f`.
fn normal_of(f: u32) -> (r: (i32, i32, i32))
    requires
        f < 6,
    ensures
        r.0 == face_normal(f as int).0,
        r.1 == face_normal(f as int).1,
        r.2 == face_normal(f as int).2,
{
    if f == 0 {
        (0, 0, 1)
    } else if f == 1 {
        (0, 0, -1)
    } else if f == 2 {
        (1, 0, 0)
    } else if f == 3 {
        (-1, 0, 0)
    } else if f == 4 {
        (0, 1, 0)
    } else {
        (0, -1, 0)
    }
}

fn cover_of(f: u32) -> (r: u8)
    requires
        f < 6,
    ensures
        r == face_cover(f as int),
{
    if f == 0 {
        voxel_shapes::SOUTH
    } else if f == 1 {
        voxel_shapes::NORTH
    } else if f == 2 {
        voxel_shapes::WEST
    } else if f == 3 {
        voxel_shapes::EAST
    } else if f == 4 {
        voxel_shapes::BOTTOM
    } else {
        voxel_shapes::TOP
    }
}

fn corner_of(f: u32, a: u32, b: u32) -> (r: (u32, u32, u32))
    requires
        f < 6,
        a <= 1,
        b <= 1,
    ensures
        r.0 == face_corner(f as int, a as int, b as int).0,
        r.1 == face_corner(f as int, a as int, b as int).1,
        r.2 == face_corner(f as int, a as int, b as int).2,
{
    if f == 0 {
        (1 - a, b, 1)
    } else if f == 1 {
        (a, b, 0)
    } else if f == 2 {
        (1, b, a)
    } else if f == 3 {
        (0, b, 1 - a)
    } else if f == 4 {
        (a, 1, b)
    } else {
        (a, 0, 1 - b)
    }
}

/// Whether face `f` of the local voxel `(x, y, z)` is seen.
fn face_check(chunk: &VoxelChunk, x: u32, y: u32, z: u32, f: u32) -> (r: bool)
    requires
        chunk@.wf(),
        in_local_range(x as int, y as int, z as int),
        f < 6,
    ensures
        r == face_visible(chunk@.voxels, x as int, y as int, z as int, f as int),
{
    let n = normal_of(f);
    let nx = x as i32 + n.0;
    let ny = y as i32 + n.1;
    let nz = z as i32 + n.2;
    let s = CHUNK_SIZE as i32;
    if nx < 0 || ny < 0 || nz < 0 || nx >= s || ny >= s || nz >= s {
        return true;
    }
    let idx = index_of(&UVec3 { x: nx as u32, y: ny as u32, z: nz as u32 });
    !chunk.voxels[idx].shape.contains(VoxelShape::new(cover_of(f)))
}

fn quad_vertex_of(x: u32, y: u32, z: u32, f: u32, a: u32, b: u32) -> (r: Vertex)
    requires
        in_local_range(x as int, y as int, z as int),
        f < 6,
        a <= 1,
        b <= 1,
    ensures
        r == quad_vertex(x as int, y as int, z as int, f as int, a as int, b as int),
{
    let c = corner_of(f, a, b);
    let n = normal_of(f);
    Vertex {
        position: IVec3 { x: (x + c.0) as i32, y: (y + c.1) as i32, z: (z + c.2) as i32 },
        color: UVec3 { x: 1, y: 1, z: 1 },
        normal: IVec3 { x: n.0, y: n.1, z: n.2 },
        uv: TexCoord { u: a, v: b },
    }
}

/// Appends the quad of face `f` of the local voxel `(x, y, z)`: six indices, then four
/// vertices.
fn build_quad(vertices: &mut Vec<Vertex>, indices: &mut Vec<u32>, x: u32, y: u32, z: u32, f: u32)
    requires
        in_local_range(x as int, y as int, z as int),
        f < 6,
        old(vertices)@.len() + 4 <= u32::MAX,
    ensures
        final(vertices)@ == old(vertices)@ + quad_vertices(x as int, y as int, z as int, f as int),
        final(indices)@ == old(indices)@ + quad_index_pattern(old(vertices)@.len() as int),
{
    let offset = vertices.len() as u32;
    indices.push(offset);
    indices.push(offset + 2);
    indices.push(offset + 1);
    indices.push(offset + 1);
    indices.push(offset + 2);
    indices.push(offset + 3);
    vertices.push(quad_vertex_of(x, y, z, f, 0, 0));
    vertices.push(quad_vertex_of(x, y, z, f, 1, 0));
    vertices.push(quad_vertex_of(x, y, z, f, 0, 1));
    vertices.push(quad_vertex_of(x, y, z, f, 1, 1));
    assert(vertices@ =~= old(vertices)@ + quad_vertices(x as int, y as int, z as int, f as int));
    assert(indices@ =~= old(indices)@ + quad_index_pattern(old(vertices)@.len() as int));
}

/// Appends a quad for every visible face of the local voxel `position`.
fn generate_faces(
    chunk: &VoxelChunk,
    position: &UVec3,
    vertices: &mut Vec<Vertex>,
    indices: &mut Vec<u32>,
)
    requires
        chunk@.wf(),
        position.in_chunk(),
        old(vertices)@.len() + 24 <= u32::MAX,
    ensures
        ({
            let added = faces_vertices(
                chunk@.voxels,
                position.x as int,
                position.y as int,
                position.z as int,
                6,
            );
            &&& final(vertices)@ == old(vertices)@ + added
            &&& final(indices)@ == old(indices)@ + quad_indices_from(
                old(vertices)@.len() as int,
                (added.len() / 4) as nat,
            )
            &&& added.len() % 4 == 0
            &&& added.len() <= 24
        }),
{
    let ghost v0 = vertices@;
    let ghost i0 = indices@;
    let (x, y, z) = (position.x, position.y, position.z);
    let mut f: u32 = 0;
    while f < 6
        invariant
            chunk@.wf(),
            in_local_range(x as int, y as int, z as int),
            f <= 6,
            v0.len() + 24 <= u32::MAX,
            ({
                let added = faces_vertices(chunk@.voxels, x as int, y as int, z as int, f as int);
                &&& vertices@ == v0 + added
                &&& indices@ == i0 + quad_indices_from(v0.len() as int, (added.len() / 4) as nat)
                &&& added.len() % 4 == 0
                &&& added.len() <= 4 * f
            }),
        decreases 6 - f,
    {
        let ghost before = faces_vertices(chunk@.voxels, x as int, y as int, z as int, f as int);
        if face_check(chunk, x, y, z, f) {
            build_quad(vertices, indices, x, y, z, f);
            assert(indices@ =~= i0 + quad_indices_from(
                v0.len() as int,
                (before.len() / 4 + 1) as nat,
            ));
        }
        assert(vertices@ =~= v0 + faces_vertices(
            chunk@.voxels,
            x as int,
            y as int,
            z as int,
            f + 1,
        ));
        f = f + 1;
    }
}

} // verus!
