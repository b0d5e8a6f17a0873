//! Procedural cube-grid mesh generation.
//!
//! A chunk is a fixed width x depth x height grid of axis-aligned unit cubes,
//! emitted once into a flat vertex and index buffer.  Every cube contributes
//! 24 vertices (four per face, six faces) and 36 indices (two triangles per
//! face with outward winding), each index biased by 24 times the cube's
//! emission position.  Cubes are emitted in row-major order: x varies
//! fastest, then z, then y.  Exceeding the grid's capacity is reported as an
//! error, never truncated silently.

use vstd::prelude::*;

use crate::fixed::SCALE;
use crate::math::Vec3;
use crate::math::comps_within;

verus! {

/// Largest accepted grid dimension; keeps every index inside `u32` and the
/// cube coordinates inside `i64`.
pub const DIM_LIMIT: u32 = 256;

/// Largest position component accepted for a cube or chunk origin.
pub const ORIGIN_LIMIT: i64 = 1_000_000_000;

/// One vertex of the working representation: a position and a texture
/// coordinate pair, all in fixed-point units.
#[derive(Clone, Copy, Debug, PartialEq, Eq, Structural)]
pub struct Vertex {
    pub position: Vec3,
    pub u: i64,
    pub v: i64,
}

/// Mesh generation errors: writing past the pre-sized grid capacity.
#[derive(Clone, Copy, Debug, PartialEq, Eq, Structural)]
pub enum ChunkError {
    CapacityExceeded,
}

/// The 24 vertices of one unit cube whose near corner sits at `pos`: four
/// per face, in back/front/left/right/bottom/top order, with the corner
/// texture coordinates of each face.
pub open spec fn block_vertices(pos: Vec3) -> Seq<Vertex> {
    let x0 = pos.x;
    let y0 = pos.y;
    let z0 = pos.z;
    let x1 = (pos.x + SCALE) as i64;
    let y1 = (pos.y + SCALE) as i64;
    let z1 = (pos.z + SCALE) as i64;
    seq![
        Vertex { position: Vec3 { x: x0, y: y0, z: z0 }, u: 0, v: 0 },
        Vertex { position: Vec3 { x: x1, y: y0, z: z0 }, u: SCALE, v: 0 },
        Vertex { position: Vec3 { x: x1, y: y1, z: z0 }, u: SCALE, v: SCALE },
        Vertex { position: Vec3 { x: x0, y: y1, z: z0 }, u: 0, v: SCALE },
        Vertex { position: Vec3 { x: x0, y: y0, z: z1 }, u: 0, v: 0 },
        Vertex { position: Vec3 { x: x1, y: y0, z: z1 }, u: SCALE, v: 0 },
        Vertex { position: Vec3 { x: x1, y: y1, z: z1 }, u: SCALE, v: SCALE },
        Vertex { position: Vec3 { x: x0, y: y1, z: z1 }, u: 0, v: SCALE },
        Vertex { position: Vec3 { x: x0, y: y1, z: z1 }, u: SCALE, v: 0 },
        Vertex { position: Vec3 { x: x0, y: y1, z: z0 }, u: SCALE, v: SCALE },
        Vertex { position: Vec3 { x: x0, y: y0, z: z0 }, u: 0, v: SCALE },
        Vertex { position: Vec3 { x: x0, y: y0, z: z1 }, u: 0, v: 0 },
        Vertex { position: Vec3 { x: x1, y: y1, z: z1 }, u: SCALE, v: 0 },
        Vertex { position: Vec3 { x: x1, y: y1, z: z0 }, u: SCALE, v: SCALE },
        Vertex { position: Vec3 { x: x1, y: y0, z: z0 }, u: 0, v: SCALE },
        Vertex { position: Vec3 { x: x1, y: y0, z: z1 }, u: 0, v: 0 },
        Vertex { position: Vec3 { x: x0, y: y0, z: z0 }, u: 0, v: SCALE },
        Vertex { position: Vec3 { x: x1, y: y0, z: z0 }, u: SCALE, v: SCALE },
        Vertex { position: Vec3 { x: x1, y: y0, z: z1 }, u: SCALE, v: 0 },
        Vertex { position: Vec3 { x: x0, y: y0, z: z1 }, u: 0, v: 0 },
        Vertex { position: Vec3 { x: x0, y: y1, z: z0 }, u: 0, v: SCALE },
        Vertex { position: Vec3 { x: x1, y: y1, z: z0 }, u: SCALE, v: SCALE },
        Vertex { position: Vec3 { x: x1, y: y1, z: z1 }, u: SCALE, v: 0 },
        Vertex { position: Vec3 { x: x0, y: y1, z: z1 }, u: 0, v: SCALE },
    ]
}

/// The 36 unbiased indices of one cube: two counter-clockwise triangles per
/// face, wound to face outward.
pub open spec fn base_indices() -> Seq<int> {
    seq![
        2, 1, 0, 0, 3, 2,
        5, 6, 7, 7, 4, 5,
        8, 9, 10, 10, 11, 8,
        14, 13, 12, 12, 15, 14,
        16, 17, 18, 18, 19, 16,
        22, 21, 20, 20, 23, 22,
    ]
}

/// Near corner of the cube at emission position `i` in a grid anchored at
/// `origin`: x varies fastest, then z, then y, one unit per step.
pub open spec fn cube_pos(origin: Vec3, width: int, depth: int, i: int) -> Vec3 {
    Vec3 {
        x: (origin.x + SCALE * (i % width)) as i64,
        y: (origin.y + SCALE * ((i / width) / depth)) as i64,
        z: (origin.z + SCALE * ((i / width) % depth)) as i64,
    }
}

/// One cube's worth of geometry: the per-cube working representation.
pub struct Block {
    pub vertices: Vec<Vertex>,
    pub indices: Vec<u32>,
}

impl Block {
    /// The 24 vertices and 36 unbiased indices of a unit cube at `pos`.
    pub fn new(pos: Vec3) -> (b: Block)
        requires
            comps_within(pos, 2 * ORIGIN_LIMIT as int),
        ensures
            b.vertices@ == block_vertices(pos),
            b.indices@.len() == 36,
            forall|j: int| 0 <= j < 36 ==> b.indices@[j] == base_indices()[j],
    {
        let x0 = pos.x;
        let y0 = pos.y;
        let z0 = pos.z;
        let x1 = pos.x + SCALE;
        let y1 = pos.y + SCALE;
        let z1 = pos.z + SCALE;
        let mut vertices: Vec<Vertex> = Vec::new();
        vertices.push(Vertex { position: Vec3 { x: x0, y: y0, z: z0 }, u: 0, v: 0 });
        vertices.push(Vertex { position: Vec3 { x: x1, y: y0, z: z0 }, u: SCALE, v: 0 });
        vertices.push(Vertex { position: Vec3 { x: x1, y: y1, z: z0 }, u: SCALE, v: SCALE });
        vertices.push(Vertex { position: Vec3 { x: x0, y: y1, z: z0 }, u: 0, v: SCALE });
        vertices.push(Vertex { position: Vec3 { x: x0, y: y0, z: z1 }, u: 0, v: 0 });
        vertices.push(Vertex { position: Vec3 { x: x1, y: y0, z: z1 }, u: SCALE, v: 0 });
        vertices.push(Vertex { position: Vec3 { x: x1, y: y1, z: z1 }, u: SCALE, v: SCALE });
        vertices.push(Vertex { position: Vec3 { x: x0, y: y1, z: z1 }, u: 0, v: SCALE });
        vertices.push(Vertex { position: Vec3 { x: x0, y: y1, z: z1 }, u: SCALE, v: 0 });
        vertices.push(Vertex { position: Vec3 { x: x0, y: y1, z: z0 }, u: SCALE, v: SCALE });
        vertices.push(Vertex { position: Vec3 { x: x0, y: y0, z: z0 }, u: 0, v: SCALE });
        vertices.push(Vertex { position: Vec3 { x: x0, y: y0, z: z1 }, u: 0, v: 0 });
        vertices.push(Vertex { position: Vec3 { x: x1, y: y1, z: z1 }, u: SCALE, v: 0 });
        vertices.push(Vertex { position: Vec3 { x: x1, y: y1, z: z0 }, u: SCALE, v: SCALE });
        vertices.push(Vertex { position: Vec3 { x: x1, y: y0, z: z0 }, u: 0, v: SCALE });
        vertices.push(Vertex { position: Vec3 { x: x1, y: y0, z: z1 }, u: 0, v: 0 });
        vertices.push(Vertex { position: Vec3 { x: x0, y: y0, z: z0 }, u: 0, v: SCALE });
        vertices.push(Vertex { position: Vec3 { x: x1, y: y0, z: z0 }, u: SCALE, v: SCALE });
        vertices.push(Vertex { position: Vec3 { x: x1, y: y0, z: z1 }, u: SCALE, v: 0 });
        vertices.push(Vertex { position: Vec3 { x: x0, y: y0, z: z1 }, u: 0, v: 0 });
        vertices.push(Vertex { position: Vec3 { x: x0, y: y1, z: z0 }, u: 0, v: SCALE });
        vertices.push(Vertex { position: Vec3 { x: x1, y: y1, z: z0 }, u: SCALE, v: SCALE });
        vertices.push(Vertex { position: Vec3 { x: x1, y: y1, z: z1 }, u: SCALE, v: 0 });
        vertices.push(Vertex { position: Vec3 { x: x0, y: y1, z: z1 }, u: 0, v: SCALE });
        let mut indices: Vec<u32> = Vec::new();
        indices.push(2);
        indices.push(1);
        indices.push(0);
        indices.push(0);
        indices.push(3);
        indices.push(2);
        indices.push(5);
        indices.push(6);
        indices.push(7);
        indices.push(7);
        indices.push(4);
        indices.push(5);
        indices.push(8);
        indices.push(9);
        indices.push(10);
        indices.push(10);
        indices.push(11);
        indices.push(8);
        indices.push(14);
        indices.push(13);
        indices.push(12);
        indices.push(12);
        indices.push(15);
        indices.push(14);
        indices.push(16);
        indices.push(17);
        indices.push(18);
        indices.push(18);
        indices.push(19);
        indices.push(16);
        indices.push(22);
        indices.push(21);
        indices.push(20);
        indices.push(20);
        indices.push(23);
        indices.push(22);
        proof {
            assert(vertices@ =~= block_vertices(pos));
        }
        Block { vertices, indices }
    }
}

/// The grid mesh: flat vertex and index buffers, the number of cubes emitted
/// so far, and the grid the buffers were sized for.
pub struct Chunk {
    pub vertices: Vec<Vertex>,
    pub indices: Vec<u32>,
    pub cube_count: u32,
    pub width: u32,
    pub depth: u32,
    pub height: u32,
}

impl Chunk {
    /// Number of cube slots in the grid.
    pub open spec fn capacity(self) -> int {
        self.width * self.depth * self.height
    }

    /// The buffer invariant: for every cube emitted there are exactly 24
    /// vertices and 36 indices, every index points inside the vertex buffer,
    /// and the emission count never passes the grid capacity.
    pub open spec fn wf(self) -> bool {
        &&& self.width <= DIM_LIMIT && self.depth <= DIM_LIMIT && self.height <= DIM_LIMIT
        &&& self.vertices@.len() == 24 * self.cube_count
        &&& self.indices@.len() == 36 * self.cube_count
        &&& self.cube_count <= self.capacity()
        &&& forall|k: int|
            0 <= k < self.indices@.len() ==> self.indices@[k] < 24 * self.cube_count
    }

    /// An empty chunk sized for a `width x depth x height` grid.
    pub fn new(width: u32, depth: u32, height: u32) -> (c: Chunk)
        requires
            width <= DIM_LIMIT,
            depth <= DIM_LIMIT,
            height <= DIM_LIMIT,
        ensures
            c.wf(),
            c.cube_count == 0,
            c.width == width && c.depth == depth && c.height == height,
            c.vertices@.len() == 0,
            c.indices@.len() == 0,
    {
        Chunk {
            vertices: Vec::new(),
            indices: Vec::new(),
            cube_count: 0,
            width,
            depth,
            height,
        }
    }

    /// Emit one cube at `pos`: 24 vertices appended in face order and 36
    /// indices biased by 24 times the emission position.  A full chunk
    /// reports the capacity violation and changes nothing.
    pub fn load_cube(&mut self, pos: &Vec3) -> (r: Result<(), ChunkError>)
        requires
            old(self).wf(),
            comps_within(*pos, 2 * ORIGIN_LIMIT as int),
        ensures
            final(self).wf(),
            old(self).cube_count < old(self).capacity() ==> r == Ok::<(), ChunkError>(())
                && final(self).cube_count == old(self).cube_count + 1 && final(self).vertices@
                == old(self).vertices@ + block_vertices(*pos) && final(self).indices@.len() == old(self).indices@.len() + 36 && (forall|k: int|
                0 <= k < old(self).indices@.len() ==> final(self).indices@[k] == old(self).indices@[k]) && (forall|j: int|
                0 <= j < 36 ==> final(self).indices@[old(self).indices@.len() + j]
                    == base_indices()[j] + 24 * old(self).cube_count),
            old(self).cube_count >= old(self).capacity() ==> r == Err::<(), ChunkError>(
                ChunkError::CapacityExceeded,
            ) && *final(self) == *old(self),
            final(self).width == old(self).width && final(self).depth == old(self).depth && final(self).height == old(self).height,
    {
        proof {
            lemma_capacity_small(
                old(self).width as int,
                old(self).depth as int,
                old(self).height as int,
            );
        }
        let cap: u32 = self.width * self.depth * self.height;
        if self.cube_count >= cap {
            return Err(ChunkError::CapacityExceeded);
        }
        let block = Block::new(Vec3 { x: pos.x, y: pos.y, z: pos.z });
        let base: u32 = 24 * self.cube_count;
        proof {
            assert(self.vertices@ =~= old(self).vertices@ + block.vertices@.subrange(0, 0));
        }
        let mut vi: usize = 0;
        while vi < block.vertices.len()
            invariant
                0 <= vi <= block.vertices@.len(),
                block.vertices@ == block_vertices(*pos),
                self.vertices@ == old(self).vertices@ + block.vertices@.subrange(0, vi as int),
                self.indices@ == old(self).indices@,
                self.cube_count == old(self).cube_count,
                self.width == old(self).width && self.depth == old(self).depth && self.height
                    == old(self).height,
            decreases block.vertices@.len() - vi,
        {
            self.vertices.push(block.vertices[vi]);
            vi = vi + 1;
            proof {
                assert(self.vertices@ =~= old(self).vertices@ + block.vertices@.subrange(
                    0,
                    vi as int,
                ));
            }
        }
        proof {
            assert(block.vertices@.subrange(0, block.vertices@.len() as int) =~= block.vertices@);
        }
        let mut ii: usize = 0;
        while ii < block.indices.len()
            invariant
                0 <= ii <= block.indices@.len(),
                block.indices@.len() == 36,
                forall|j: int| 0 <= j < 36 ==> block.indices@[j] == base_indices()[j],
                base == 24 * old(self).cube_count,
                old(self).cube_count < old(self).capacity(),
                old(self).capacity() <= 16_777_216,
                old(self).wf(),
                self.vertices@ == old(self).vertices@ + block_vertices(*pos),
                self.indices@.len() == old(self).indices@.len() + ii,
                forall|k: int|
                    0 <= k < old(self).indices@.len() ==> self.indices@[k] == old(self).indices@[k],
                forall|j: int|
                    0 <= j < ii ==> self.indices@[old(self).indices@.len() + j]
                        == base_indices()[j] + 24 * old(self).cube_count,
                self.cube_count == old(self).cube_count,
                self.width == old(self).width && self.depth == old(self).depth && self.height
                    == old(self).height,
            decreases block.indices@.len() - ii,
        {
            proof {
                assert(base_indices()[ii as int] <= 23);
            }
            self.indices.push(block.indices[ii] + base);
            ii = ii + 1;
        }
        self.cube_count = self.cube_count + 1;
        proof {
            lemma_index_bound_after_cube(*old(self), *self);
        }
        Ok(())
    }

    /// Populate the whole grid with unit cubes anchored at `pos`, in
    /// row-major emission order.  A grid with any zero dimension produces
    /// empty buffers.
    pub fn load_cubes(&mut self, pos: Vec3)
        requires
            old(self).wf(),
            old(self).cube_count == 0,
            comps_within(pos, ORIGIN_LIMIT as int),
        ensures
            final(self).wf(),
            final(self).cube_count == old(self).capacity(),
            final(self).width == old(self).width && final(self).depth == old(self).depth && final(self).height == old(self).height,
            final(self).vertices@.len() == 24 * old(self).capacity(),
            final(self).indices@.len() == 36 * old(self).capacity(),
            forall|i: int|
                0 <= i < old(self).capacity() ==> final(self).vertices@.subrange(
                    24 * i,
                    24 * i + 24,
                ) == block_vertices(
                    cube_pos(pos, old(self).width as int, old(self).depth as int, i),
                ),
            forall|k: int|
                0 <= k < 36 * old(self).capacity() ==> final(self).indices@[k]
                    == base_indices()[k % 36] + 24 * (k / 36),
    {
        proof {
            lemma_capacity_small(
                old(self).width as int,
                old(self).depth as int,
                old(self).height as int,
            );
        }
        let cap: u32 = self.width * self.depth * self.height;
        let mut i: u32 = 0;
        while i < cap
            invariant
                old(self).wf(),
                cap == old(self).capacity(),
                comps_within(pos, ORIGIN_LIMIT as int),
                0 <= i <= cap,
                self.wf(),
                self.cube_count == i,
                self.width == old(self).width && self.depth == old(self).depth && self.height
                    == old(self).height,
                self.vertices@.len() == 24 * i,
                self.indices@.len() == 36 * i,
                forall|j: int|
                    0 <= j < i ==> self.vertices@.subrange(24 * j, 24 * j + 24) == block_vertices(
                        cube_pos(pos, old(self).width as int, old(self).depth as int, j),
                    ),
                forall|k: int|
                    0 <= k < 36 * i ==> self.indices@[k] == base_indices()[k % 36] + 24 * (k
                        / 36),
            decreases cap - i,
        {
            proof {
                lemma_grid_coords(
                    old(self).width as int,
                    old(self).depth as int,
                    old(self).height as int,
                    i as int,
                );
            }
            let x: u32 = i % self.width;
            let rest: u32 = i / self.width;
            let z: u32 = rest % self.depth;
            let y: u32 = rest / self.depth;
            let cube = Vec3 {
                x: pos.x + SCALE * (x as i64),
                y: pos.y + SCALE * (y as i64),
                z: pos.z + SCALE * (z as i64),
            };
            proof {
                assert(cube == cube_pos(
                    pos,
                    old(self).width as int,
                    old(self).depth as int,
                    i as int,
                ));
            }
            let ghost pre = *self;
            let r = self.load_cube(&cube);
            proof {
                match r {
                    Ok(()) => {},
                    Err(_) => {
                        assert(false);
                    },
                }
                lemma_cube_appended(
                    pre,
                    *self,
                    pos,
                    old(self).width as int,
                    old(self).depth as int,
                    i as int,
                );
            }
            i = i + 1;
        }
    }

    /// Flatten the vertex sequence into the interleaved `(x, y, z, u, v)`
    /// stream that the GPU layer uploads.
    pub fn flatten(&self) -> (out: Vec<i64>)
        ensures
            out@.len() == 5 * self.vertices@.len(),
            forall|k: int|
                0 <= k < self.vertices@.len() ==> out@[5 * k] == self.vertices@[k].position.x
                    && out@[5 * k + 1] == self.vertices@[k].position.y && out@[5 * k + 2]
                    == self.vertices@[k].position.z && out@[5 * k + 3] == self.vertices@[k].u
                    && out@[5 * k + 4] == self.vertices@[k].v,
    {
        let mut out: Vec<i64> = Vec::new();
        let mut k: usize = 0;
        while k < self.vertices.len()
            invariant
                0 <= k <= self.vertices@.len(),
                out@.len() == 5 * k,
                forall|j: int|
                    0 <= j < k ==> out@[5 * j] == self.vertices@[j].position.x && out@[5 * j + 1]
                        == self.vertices@[j].position.y && out@[5 * j + 2]
                        == self.vertices@[j].position.z && out@[5 * j + 3] == self.vertices@[j].u
                        && out@[5 * j + 4] == self.vertices@[j].v,
            decreases self.vertices@.len() - k,
        {
            let vert = self.vertices[k];
            out.push(vert.position.x);
            out.push(vert.position.y);
            out.push(vert.position.z);
            out.push(vert.u);
            out.push(vert.v);
            k = k + 1;
        }
        out
    }
}

/// The capacity of a bounded grid is small enough for every index and
/// count computation to stay in `u32`.
proof fn lemma_capacity_small(width: int, depth: int, height: int)
    requires
        0 <= width <= DIM_LIMIT,
        0 <= depth <= DIM_LIMIT,
        0 <= height <= DIM_LIMIT,
    ensures
        0 <= width * depth <= 65536,
        0 <= width * depth * height <= 16_777_216,
{
    assert(0 <= width * depth <= 65536) by (nonlinear_arith)
        requires
            0 <= width <= 256,
            0 <= depth <= 256,
    ;
    assert(0 <= width * depth * height <= 16_777_216) by (nonlinear_arith)
        requires
            0 <= width * depth <= 65536,
            0 <= height <= 256,
    ;
}

/// After one cube is emitted every index stays below 24 times the new count.
proof fn lemma_index_bound_after_cube(pre: Chunk, post: Chunk)
    requires
        pre.wf(),
        pre.cube_count < pre.capacity(),
        post.cube_count == pre.cube_count + 1,
        post.indices@.len() == pre.indices@.len() + 36,
        forall|k: int| 0 <= k < pre.indices@.len() ==> post.indices@[k] == pre.indices@[k],
        forall|j: int|
            0 <= j < 36 ==> post.indices@[pre.indices@.len() + j] == base_indices()[j] + 24
                * pre.cube_count,
    ensures
        forall|k: int| 0 <= k < post.indices@.len() ==> post.indices@[k] < 24 * post.cube_count,
{
    assert forall|k: int| 0 <= k < post.indices@.len() implies post.indices@[k] < 24
        * post.cube_count by {
        if k < pre.indices@.len() {
            assert(post.indices@[k] == pre.indices@[k]);
            assert(pre.indices@[k] < 24 * pre.cube_count);
        } else {
            let j = k - pre.indices@.len();
            assert(post.indices@[k] == base_indices()[j] + 24 * pre.cube_count);
            assert(base_indices()[j] <= 23);
        }
    }
}

/// The grid coordinates of emission position `i` are in range, their cube
/// sits where `cube_pos` says, and the division chain is consistent.
proof fn lemma_grid_coords(width: int, depth: int, height: int, i: int)
    requires
        0 <= width,
        0 <= depth,
        0 <= height,
        0 <= i < width * depth * height,
    ensures
        1 <= width && 1 <= depth && 1 <= height,
        0 <= i % width < width,
        0 <= (i / width) % depth < depth,
        0 <= (i / width) / depth < height,
{
    assert(1 <= width && 1 <= depth && 1 <= height) by (nonlinear_arith)
        requires
            0 <= width && 0 <= depth && 0 <= height,
            width * depth * height > 0,
    ;
    vstd::arithmetic::div_mod::lemma_mod_bound(i, width);
    vstd::arithmetic::div_mod::lemma_div_pos_is_pos(i, width);
    vstd::arithmetic::div_mod::lemma_mod_bound(i / width, depth);
    vstd::arithmetic::div_mod::lemma_div_pos_is_pos(i / width, depth);
    let q = depth * height;
    assert(i <= width * q - 1) by (nonlinear_arith)
        requires
            i < width * depth * height,
            q == depth * height,
    ;
    vstd::arithmetic::div_mod::lemma_div_is_ordered(i, width * q - 1, width);
    assert(width * q - 1 == width * (q - 1) + (width - 1)) by (nonlinear_arith);
    vstd::arithmetic::div_mod::lemma_fundamental_div_mod_converse(
        width * q - 1,
        width,
        q - 1,
        width - 1,
    );
    let t = i / width;
    assert(t <= depth * height - 1);
    vstd::arithmetic::div_mod::lemma_div_is_ordered(t, depth * height - 1, depth);
    assert(depth * height - 1 == depth * (height - 1) + (depth - 1)) by (nonlinear_arith);
    vstd::arithmetic::div_mod::lemma_fundamental_div_mod_converse(
        depth * height - 1,
        depth,
        height - 1,
        depth - 1,
    );
}

/// Appending cube `i`'s block keeps every earlier cube's segment in place
/// and writes the new segment and indices where the contract says.
proof fn lemma_cube_appended(pre: Chunk, post: Chunk, origin: Vec3, width: int, depth: int, i: int)
    requires
        post.vertices@ == pre.vertices@ + block_vertices(cube_pos(origin, width, depth, i)),
        pre.vertices@.len() == 24 * i,
        post.indices@.len() == pre.indices@.len() + 36,
        pre.indices@.len() == 36 * i,
        forall|k: int| 0 <= k < pre.indices@.len() ==> post.indices@[k] == pre.indices@[k],
        forall|j: int|
            0 <= j < 36 ==> post.indices@[pre.indices@.len() + j] == base_indices()[j] + 24 * i,
        forall|j: int|
            0 <= j < i ==> pre.vertices@.subrange(24 * j, 24 * j + 24) == block_vertices(
                cube_pos(origin, width, depth, j),
            ),
        forall|k: int|
            0 <= k < 36 * i ==> pre.indices@[k] == base_indices()[k % 36] + 24 * (k / 36),
        i >= 0,
    ensures
        forall|j: int|
            0 <= j <= i ==> post.vertices@.subrange(24 * j, 24 * j + 24) == block_vertices(
                cube_pos(origin, width, depth, j),
            ),
        forall|k: int|
            0 <= k < 36 * (i + 1) ==> post.indices@[k] == base_indices()[k % 36] + 24 * (k / 36),
{
    assert forall|j: int| 0 <= j <= i implies post.vertices@.subrange(24 * j, 24 * j + 24)
        == block_vertices(cube_pos(origin, width, depth, j)) by {
        if j < i {
            assert(post.vertices@.subrange(24 * j, 24 * j + 24) =~= pre.vertices@.subrange(
                24 * j,
                24 * j + 24,
            ));
        } else {
            assert(post.vertices@.subrange(24 * i, 24 * i + 24) =~= block_vertices(
                cube_pos(origin, width, depth, i),
            ));
        }
    }
    assert forall|k: int| 0 <= k < 36 * (i + 1) implies post.indices@[k] == base_indices()[k % 36]
        + 24 * (k / 36) by {
        if k < 36 * i {
            assert(post.indices@[k] == pre.indices@[k]);
        } else {
            let j = k - 36 * i;
            assert(0 <= j < 36);
            assert(post.indices@[k] == base_indices()[j] + 24 * i);
            vstd::arithmetic::div_mod::lemma_fundamental_div_mod_converse(k, 36, i, j);
        }
    }
}

} // verus!
