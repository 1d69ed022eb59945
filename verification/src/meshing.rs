//! Face-visibility meshing: turning a chunk into a triangle list.
//!
//! Cells are visited in a fixed order (z, then y, then x fastest).  Every
//! cell whose name is not the "air" sentinel is solid; for each of its six
//! axis-aligned neighbours, a quad (two counter-clockwise triangles, six
//! vertices) is emitted exactly when that neighbour is absent: outside the
//! chunk bounds, or air.  A neighbour in another chunk is never consulted —
//! out-of-bounds always counts as absent, so faces on the chunk boundary are
//! always emitted.  Faces come in the fixed direction order +X, -X, +Y, -Y,
//! +Z, -Z, each from a fixed per-direction vertex template translated by the
//! cell position.  The output is fully determined by the chunk: `make_mesh`
//! returns exactly `spec_mesh` of the chunk, so meshing the same chunk twice
//! gives vertex-for-vertex identical output.

use vstd::pervasive::unreached;
use vstd::prelude::*;

use crate::block::{air_name, block_wf, cell_index, is_air, Block, BlockModel};
use crate::mesh::{Mesh, Vec2i, Vec3i, Vertex};

verus! {

/// Whether the cell at `(x, y, z)` is present and solid: inside the chunk
/// bounds and named anything but "air".
pub open spec fn solid_at(m: BlockModel, x: int, y: int, z: int) -> bool {
    &&& 0 <= x < 16
    &&& 0 <= y < 16
    &&& 0 <= z < 16
    &&& m.palette[m.cells[cell_index(x, y, z)] as int] != air_name()
}

/// The unit offset of face direction `d`, in the fixed order +X, -X, +Y,
/// -Y, +Z, -Z.
pub open spec fn dir_offset(d: int) -> (int, int, int) {
    if d == 0 {
        (1, 0, 0)
    } else if d == 1 {
        (-1, 0, 0)
    } else if d == 2 {
        (0, 1, 0)
    } else if d == 3 {
        (0, -1, 0)
    } else if d == 4 {
        (0, 0, 1)
    } else {
        (0, 0, -1)
    }
}

/// The outward unit normal every vertex of a `d`-facing quad carries.
pub open spec fn normal_of(d: int) -> Vec3i {
    Vec3i {
        x: dir_offset(d).0 as i32,
        y: dir_offset(d).1 as i32,
        z: dir_offset(d).2 as i32,
    }
}

/// The `d` face of the solid cell at `(x, y, z)` is emitted exactly when
/// the cell is solid and the neighbour the face looks at is absent.
pub open spec fn face_visible(m: BlockModel, x: int, y: int, z: int, d: int) -> bool {
    &&& solid_at(m, x, y, z)
    &&& !solid_at(m, x + dir_offset(d).0, y + dir_offset(d).1, z + dir_offset(d).2)
}

/// One template vertex translated to cell `(x, y, z)`: positions are in
/// half-units, so the cell centre is `(2x, 2y, 2z)` and `(cx, cy, cz)` picks
/// a corner one half-unit away on each axis.
pub open spec fn sv(
    x: int,
    y: int,
    z: int,
    cx: int,
    cy: int,
    cz: int,
    nx: int,
    ny: int,
    nz: int,
    tu: int,
    tv: int,
) -> Vertex {
    Vertex {
        position: Vec3i { x: (2 * x + cx) as i32, y: (2 * y + cy) as i32, z: (2 * z + cz) as i32 },
        normal: Vec3i { x: nx as i32, y: ny as i32, z: nz as i32 },
        texcoord: Vec2i { x: tu as i32, y: tv as i32 },
    }
}

/// The six vertices (two counter-clockwise triangles) of the `d` face of
/// cell `(x, y, z)`, in template order.
pub open spec fn face_seq(d: int, x: int, y: int, z: int) -> Seq<Vertex> {
    if d == 0 {
        seq![
            sv(x, y, z, 1, -1, -1, 1, 0, 0, 0, 0),
            sv(x, y, z, 1, 1, -1, 1, 0, 0, 0, 1),
            sv(x, y, z, 1, 1, 1, 1, 0, 0, 1, 1),
            sv(x, y, z, 1, -1, -1, 1, 0, 0, 0, 0),
            sv(x, y, z, 1, 1, 1, 1, 0, 0, 1, 1),
            sv(x, y, z, 1, -1, 1, 1, 0, 0, 1, 0),
        ]
    } else if d == 1 {
        seq![
            sv(x, y, z, -1, -1, 1, -1, 0, 0, 0, 0),
            sv(x, y, z, -1, 1, 1, -1, 0, 0, 0, 1),
            sv(x, y, z, -1, 1, -1, -1, 0, 0, 1, 1),
            sv(x, y, z, -1, -1, 1, -1, 0, 0, 0, 0),
            sv(x, y, z, -1, 1, -1, -1, 0, 0, 1, 1),
            sv(x, y, z, -1, -1, -1, -1, 0, 0, 1, 0),
        ]
    } else if d == 2 {
        seq![
            sv(x, y, z, -1, 1, -1, 0, 1, 0, 0, 0),
            sv(x, y, z, 1, 1, -1, 0, 1, 0, 0, 1),
            sv(x, y, z, 1, 1, 1, 0, 1, 0, 1, 1),
            sv(x, y, z, -1, 1, -1, 0, 1, 0, 0, 0),
            sv(x, y, z, 1, 1, 1, 0, 1, 0, 1, 1),
            sv(x, y, z, -1, 1, 1, 0, 1, 0, 1, 0),
        ]
    } else if d == 3 {
        seq![
            sv(x, y, z, -1, -1, 1, 0, -1, 0, 0, 0),
            sv(x, y, z, 1, -1, 1, 0, -1, 0, 0, 1),
            sv(x, y, z, 1, -1, -1, 0, -1, 0, 1, 1),
            sv(x, y, z, -1, -1, 1, 0, -1, 0, 0, 0),
            sv(x, y, z, 1, -1, -1, 0, -1, 0, 1, 1),
            sv(x, y, z, -1, -1, -1, 0, -1, 0, 1, 0),
        ]
    } else if d == 4 {
        seq![
            sv(x, y, z, -1, -1, 1, 0, 0, 1, 0, 0),
            sv(x, y, z, 1, -1, 1, 0, 0, 1, 0, 1),
            sv(x, y, z, 1, 1, 1, 0, 0, 1, 1, 1),
            sv(x, y, z, -1, -1, 1, 0, 0, 1, 0, 0),
            sv(x, y, z, 1, 1, 1, 0, 0, 1, 1, 1),
            sv(x, y, z, -1, 1, 1, 0, 0, 1, 1, 0),
        ]
    } else {
        seq![
            sv(x, y, z, 1, -1, -1, 0, 0, -1, 0, 0),
            sv(x, y, z, -1, -1, -1, 0, 0, -1, 0, 1),
            sv(x, y, z, -1, 1, -1, 0, 0, -1, 1, 1),
            sv(x, y, z, 1, -1, -1, 0, 0, -1, 0, 0),
            sv(x, y, z, -1, 1, -1, 0, 0, -1, 1, 1),
            sv(x, y, z, 1, 1, -1, 0, 0, -1, 1, 0),
        ]
    }
}

/// A face is one quad: six vertices, all carrying the face's outward
/// normal.
pub proof fn lemma_face_normal(d: int, x: int, y: int, z: int, k: int)
    requires
        0 <= d < 6,
        0 <= k < 6,
    ensures
        face_seq(d, x, y, z).len() == 6,
        face_seq(d, x, y, z)[k].normal == normal_of(d),
{
}

/// The vertices of cell `(x, y, z)`'s visible faces among directions
/// `0 .. d`, in direction order.
pub open spec fn faces_upto(m: BlockModel, x: int, y: int, z: int, d: int) -> Seq<Vertex>
    decreases d,
{
    if d <= 0 {
        Seq::empty()
    } else {
        faces_upto(m, x, y, z, d - 1) + (if face_visible(m, x, y, z, d - 1) {
            face_seq(d - 1, x, y, z)
        } else {
            Seq::empty()
        })
    }
}

/// The vertices of the cells `(0, y, z) .. (x-1, y, z)`, in x order.
pub open spec fn row_upto(m: BlockModel, z: int, y: int, x: int) -> Seq<Vertex>
    decreases x,
{
    if x <= 0 {
        Seq::empty()
    } else {
        row_upto(m, z, y, x - 1) + faces_upto(m, x - 1, y, z, 6)
    }
}

/// The vertices of the rows `(*, 0, z) .. (*, y-1, z)`, in y order.
pub open spec fn layer_upto(m: BlockModel, z: int, y: int) -> Seq<Vertex>
    decreases y,
{
    if y <= 0 {
        Seq::empty()
    } else {
        layer_upto(m, z, y - 1) + row_upto(m, z, y - 1, 16)
    }
}

/// The vertices of the layers `0 .. z`, in z order.
pub open spec fn chunk_upto(m: BlockModel, z: int) -> Seq<Vertex>
    decreases z,
{
    if z <= 0 {
        Seq::empty()
    } else {
        chunk_upto(m, z - 1) + layer_upto(m, z - 1, 16)
    }
}

/// The whole mesh of a chunk: every visible face of every solid cell, in
/// the fixed (z, y, x, direction) emission order.
pub open spec fn spec_mesh(m: BlockModel) -> Seq<Vertex> {
    chunk_upto(m, 16)
}

/// An absent or empty cell emits nothing.
pub proof fn lemma_faces_not_solid(m: BlockModel, x: int, y: int, z: int, d: int)
    requires
        !solid_at(m, x, y, z),
    ensures
        faces_upto(m, x, y, z, d) == Seq::<Vertex>::empty(),
    decreases d,
{
    if d > 0 {
        lemma_faces_not_solid(m, x, y, z, d - 1);
        assert(Seq::<Vertex>::empty() + Seq::<Vertex>::empty() =~= Seq::<Vertex>::empty());
    }
}

/// A face whose neighbouring cell is solid is occluded: it is never
/// emitted, whatever else the chunk holds.  In particular, of two solid
/// cells adjacent along an axis, each hides the face of the other that
/// looks at their shared boundary.
pub proof fn lemma_occluded_face_hidden(m: BlockModel, x: int, y: int, z: int, d: int)
    requires
        solid_at(m, x + dir_offset(d).0, y + dir_offset(d).1, z + dir_offset(d).2),
    ensures
        !face_visible(m, x, y, z, d),
{
}

/// A solid cell all six of whose neighbours are absent — out of bounds or
/// air — has every face visible and emits all six quads: 36 vertices.
pub proof fn lemma_exposed_cell_emits_all_faces(m: BlockModel, x: int, y: int, z: int)
    requires
        solid_at(m, x, y, z),
        forall|d: int|
            0 <= d < 6 ==> !solid_at(
                m,
                x + (#[trigger] dir_offset(d)).0,
                y + dir_offset(d).1,
                z + dir_offset(d).2,
            ),
    ensures
        forall|d: int| 0 <= d < 6 ==> face_visible(m, x, y, z, d),
        faces_upto(m, x, y, z, 6).len() == 36,
{
    assert(faces_upto(m, x, y, z, 0).len() == 0);
    assert forall|d: int| 0 <= d < 6 implies (#[trigger] faces_upto(m, x, y, z, d)).len() + 6
        == faces_upto(m, x, y, z, d + 1).len() by {
        assert(face_visible(m, x, y, z, d));
        assert(face_seq(d, x, y, z).len() == 6);
    }
    assert(faces_upto(m, x, y, z, 6).len() == 36);
}

/// A chunk whose cells are all air meshes to nothing.
pub proof fn lemma_mesh_empty(m: BlockModel)
    requires
        forall|x: int, y: int, z: int|
            0 <= x < 16 && 0 <= y < 16 && 0 <= z < 16 ==> !solid_at(m, x, y, z),
    ensures
        spec_mesh(m) == Seq::<Vertex>::empty(),
{
    lemma_chunk_empty(m, 16);
}

proof fn lemma_row_empty(m: BlockModel, z: int, y: int, x: int)
    requires
        0 <= y < 16,
        0 <= z < 16,
        x <= 16,
        forall|x2: int, y2: int, z2: int|
            0 <= x2 < 16 && 0 <= y2 < 16 && 0 <= z2 < 16 ==> !solid_at(m, x2, y2, z2),
    ensures
        row_upto(m, z, y, x) == Seq::<Vertex>::empty(),
    decreases x,
{
    if x > 0 {
        lemma_row_empty(m, z, y, x - 1);
        lemma_faces_not_solid(m, x - 1, y, z, 6);
        assert(Seq::<Vertex>::empty() + Seq::<Vertex>::empty() =~= Seq::<Vertex>::empty());
    }
}

proof fn lemma_layer_empty(m: BlockModel, z: int, y: int)
    requires
        0 <= z < 16,
        y <= 16,
        forall|x2: int, y2: int, z2: int|
            0 <= x2 < 16 && 0 <= y2 < 16 && 0 <= z2 < 16 ==> !solid_at(m, x2, y2, z2),
    ensures
        layer_upto(m, z, y) == Seq::<Vertex>::empty(),
    decreases y,
{
    if y > 0 {
        lemma_layer_empty(m, z, y - 1);
        lemma_row_empty(m, z, y - 1, 16);
        assert(Seq::<Vertex>::empty() + Seq::<Vertex>::empty() =~= Seq::<Vertex>::empty());
    }
}

proof fn lemma_chunk_empty(m: BlockModel, z: int)
    requires
        z <= 16,
        forall|x2: int, y2: int, z2: int|
            0 <= x2 < 16 && 0 <= y2 < 16 && 0 <= z2 < 16 ==> !solid_at(m, x2, y2, z2),
    ensures
        chunk_upto(m, z) == Seq::<Vertex>::empty(),
    decreases z,
{
    if z > 0 {
        lemma_chunk_empty(m, z - 1);
        lemma_layer_empty(m, z - 1, 16);
        assert(Seq::<Vertex>::empty() + Seq::<Vertex>::empty() =~= Seq::<Vertex>::empty());
    }
}

/// With every face of cells `0 .. d` visible, the emitted list is `6 * d`
/// vertices long.
proof fn lemma_faces_upto_len(m: BlockModel, x: int, y: int, z: int, d: int)
    requires
        0 <= d <= 6,
        forall|e: int| 0 <= e < d ==> face_visible(m, x, y, z, e),
    ensures
        faces_upto(m, x, y, z, d).len() == 6 * d,
    decreases d,
{
    if d > 0 {
        lemma_faces_upto_len(m, x, y, z, d - 1);
    }
}

/// With every face visible, vertex `6*k + j` of the emitted list is vertex
/// `j` of the `k` face's template.
proof fn lemma_faces_upto_index(
    m: BlockModel,
    x: int,
    y: int,
    z: int,
    d: int,
    k: int,
    j: int,
)
    requires
        0 <= k < d <= 6,
        0 <= j < 6,
        forall|e: int| 0 <= e < d ==> face_visible(m, x, y, z, e),
    ensures
        faces_upto(m, x, y, z, d)[6 * k + j] == face_seq(k, x, y, z)[j],
    decreases d,
{
    lemma_faces_upto_len(m, x, y, z, d - 1);
    assert(face_seq(k, x, y, z).len() == 6);
    if k < d - 1 {
        lemma_faces_upto_index(m, x, y, z, d - 1, k, j);
    }
}

/// A chunk with exactly one solid cell meshes to exactly that cell's six
/// quads, wherever the cell sits — all its neighbours are out of bounds or
/// air: 36 vertices, face after face in direction order, the six vertices
/// of each face carrying that face's outward normal.
pub proof fn lemma_single_solid_cell_mesh(m: BlockModel, x0: int, y0: int, z0: int)
    requires
        solid_at(m, x0, y0, z0),
        forall|x: int, y: int, z: int|
            0 <= x < 16 && 0 <= y < 16 && 0 <= z < 16 && !(x == x0 && y == y0 && z == z0)
                ==> !solid_at(m, x, y, z),
    ensures
        spec_mesh(m) == faces_upto(m, x0, y0, z0, 6),
        spec_mesh(m).len() == 36,
        forall|k: int| 0 <= k < 36 ==> (#[trigger] spec_mesh(m)[k]).normal == normal_of(k / 6),
{
    lemma_chunk_single(m, 16, x0, y0, z0);
    assert forall|d: int| 0 <= d < 6 implies !solid_at(
        m,
        x0 + (#[trigger] dir_offset(d)).0,
        y0 + dir_offset(d).1,
        z0 + dir_offset(d).2,
    ) by {}
    lemma_exposed_cell_emits_all_faces(m, x0, y0, z0);
    assert forall|k: int| 0 <= k < 36 implies (#[trigger] spec_mesh(m)[k]).normal == normal_of(
        k / 6,
    ) by {
        assert(k == 6 * (k / 6) + k % 6 && 0 <= k % 6 < 6 && 0 <= k / 6 < 6) by (nonlinear_arith)
            requires
                0 <= k < 36,
        ;
        lemma_faces_upto_index(m, x0, y0, z0, 6, k / 6, k % 6);
        lemma_face_normal(k / 6, x0, y0, z0, k % 6);
    }
}

proof fn lemma_row_single(m: BlockModel, z: int, y: int, x: int, x0: int, y0: int, z0: int)
    requires
        0 <= z < 16,
        0 <= y < 16,
        0 <= x <= 16,
        solid_at(m, x0, y0, z0),
        forall|x2: int, y2: int, z2: int|
            0 <= x2 < 16 && 0 <= y2 < 16 && 0 <= z2 < 16 && !(x2 == x0 && y2 == y0 && z2 == z0)
                ==> !solid_at(m, x2, y2, z2),
    ensures
        row_upto(m, z, y, x) == if z == z0 && y == y0 && x0 < x {
            faces_upto(m, x0, y0, z0, 6)
        } else {
            Seq::<Vertex>::empty()
        },
    decreases x,
{
    if x > 0 {
        lemma_row_single(m, z, y, x - 1, x0, y0, z0);
        if x - 1 == x0 && y == y0 && z == z0 {
            assert(Seq::<Vertex>::empty() + faces_upto(m, x0, y0, z0, 6) =~= faces_upto(
                m,
                x0,
                y0,
                z0,
                6,
            ));
        } else {
            lemma_faces_not_solid(m, x - 1, y, z, 6);
            assert(row_upto(m, z, y, x - 1) + Seq::<Vertex>::empty() =~= row_upto(
                m,
                z,
                y,
                x - 1,
            ));
        }
    }
}

proof fn lemma_layer_single(m: BlockModel, z: int, y: int, x0: int, y0: int, z0: int)
    requires
        0 <= z < 16,
        0 <= y <= 16,
        solid_at(m, x0, y0, z0),
        forall|x2: int, y2: int, z2: int|
            0 <= x2 < 16 && 0 <= y2 < 16 && 0 <= z2 < 16 && !(x2 == x0 && y2 == y0 && z2 == z0)
                ==> !solid_at(m, x2, y2, z2),
    ensures
        layer_upto(m, z, y) == if z == z0 && y0 < y {
            faces_upto(m, x0, y0, z0, 6)
        } else {
            Seq::<Vertex>::empty()
        },
    decreases y,
{
    if y > 0 {
        lemma_layer_single(m, z, y - 1, x0, y0, z0);
        lemma_row_single(m, z, y - 1, 16, x0, y0, z0);
        assert(Seq::<Vertex>::empty() + faces_upto(m, x0, y0, z0, 6) =~= faces_upto(
            m,
            x0,
            y0,
            z0,
            6,
        ));
        assert(layer_upto(m, z, y - 1) + Seq::<Vertex>::empty() =~= layer_upto(m, z, y - 1));
    }
}

proof fn lemma_chunk_single(m: BlockModel, z: int, x0: int, y0: int, z0: int)
    requires
        0 <= z <= 16,
        solid_at(m, x0, y0, z0),
        forall|x2: int, y2: int, z2: int|
            0 <= x2 < 16 && 0 <= y2 < 16 && 0 <= z2 < 16 && !(x2 == x0 && y2 == y0 && z2 == z0)
                ==> !solid_at(m, x2, y2, z2),
    ensures
        chunk_upto(m, z) == if z0 < z {
            faces_upto(m, x0, y0, z0, 6)
        } else {
            Seq::<Vertex>::empty()
        },
    decreases z,
{
    if z > 0 {
        lemma_chunk_single(m, z - 1, x0, y0, z0);
        lemma_layer_single(m, z - 1, 16, x0, y0, z0);
        assert(Seq::<Vertex>::empty() + faces_upto(m, x0, y0, z0, 6) =~= faces_upto(
            m,
            x0,
            y0,
            z0,
            6,
        ));
        assert(chunk_upto(m, z - 1) + Seq::<Vertex>::empty() =~= chunk_upto(m, z - 1));
    }
}

/// A cell whose `h` face is not visible emits no vertex carrying that
/// face's normal: every vertex of its emission comes from some other face
/// and carries that other face's normal.
pub proof fn lemma_hidden_face_contributes_no_vertex(
    m: BlockModel,
    x: int,
    y: int,
    z: int,
    h: int,
    d: int,
)
    requires
        0 <= h < 6,
        !face_visible(m, x, y, z, h),
        0 <= d <= 6,
    ensures
        forall|i: int|
            0 <= i < faces_upto(m, x, y, z, d).len() ==> (#[trigger] faces_upto(
                m,
                x,
                y,
                z,
                d,
            )[i]).normal != normal_of(h),
    decreases d,
{
    if d > 0 {
        lemma_hidden_face_contributes_no_vertex(m, x, y, z, h, d - 1);
        if face_visible(m, x, y, z, d - 1) {
            assert forall|i: int| 0 <= i < faces_upto(m, x, y, z, d).len() implies (
            #[trigger] faces_upto(m, x, y, z, d)[i]).normal != normal_of(h) by {
                let prev = faces_upto(m, x, y, z, d - 1);
                if i >= prev.len() {
                    lemma_face_normal(d - 1, x, y, z, i - prev.len());
                    assert(normal_of(d - 1) != normal_of(h));
                }
            }
        } else {
            assert(faces_upto(m, x, y, z, d) =~= faces_upto(m, x, y, z, d - 1));
        }
    }
}

/// A chunk with exactly two solid cells, adjacent along the x axis, meshes
/// to 60 vertices: each cell's face towards the other is hidden, leaving
/// 6 + 6 - 2 = 10 visible faces of six vertices each.  The first 30
/// vertices are the left cell's emission and carry no +X normal; the last
/// 30 are the right cell's and carry no -X normal — no vertex points into
/// the shared face.
pub proof fn lemma_adjacent_pair_mesh(m: BlockModel, x0: int, y0: int, z0: int)
    requires
        0 <= x0 < 15,
        solid_at(m, x0, y0, z0),
        solid_at(m, x0 + 1, y0, z0),
        forall|x: int, y: int, z: int|
            0 <= x < 16 && 0 <= y < 16 && 0 <= z < 16 && !(x == x0 && y == y0 && z == z0) && !(x
                == x0 + 1 && y == y0 && z == z0) ==> !solid_at(m, x, y, z),
    ensures
        spec_mesh(m) == faces_upto(m, x0, y0, z0, 6) + faces_upto(m, x0 + 1, y0, z0, 6),
        spec_mesh(m).len() == 60,
        forall|i: int| 0 <= i < 30 ==> (#[trigger] spec_mesh(m)[i]).normal != normal_of(0),
        forall|i: int| 30 <= i < 60 ==> (#[trigger] spec_mesh(m)[i]).normal != normal_of(1),
{
    lemma_chunk_pair(m, 16, x0, y0, z0);
    lemma_pair_cell_faces(m, x0, y0, z0, x0);
    lemma_pair_cell_faces(m, x0, y0, z0, x0 + 1);
    let left = faces_upto(m, x0, y0, z0, 6);
    let right = faces_upto(m, x0 + 1, y0, z0, 6);
    assert(!face_visible(m, x0, y0, z0, 0));
    assert(!face_visible(m, x0 + 1, y0, z0, 1));
    lemma_hidden_face_contributes_no_vertex(m, x0, y0, z0, 0, 6);
    lemma_hidden_face_contributes_no_vertex(m, x0 + 1, y0, z0, 1, 6);
    assert forall|i: int| 0 <= i < 30 implies (#[trigger] spec_mesh(m)[i]).normal != normal_of(
        0,
    ) by {
        assert(spec_mesh(m)[i] == left[i]);
    }
    assert forall|i: int| 30 <= i < 60 implies (#[trigger] spec_mesh(m)[i]).normal != normal_of(
        1,
    ) by {
        assert(spec_mesh(m)[i] == right[i - 30]);
    }
}

/// Either cell of the adjacent pair emits five faces — 30 vertices: the one
/// face looking at the other cell is occluded.
proof fn lemma_pair_cell_faces(m: BlockModel, x0: int, y0: int, z0: int, x: int)
    requires
        0 <= x0 < 15,
        solid_at(m, x0, y0, z0),
        solid_at(m, x0 + 1, y0, z0),
        forall|x2: int, y2: int, z2: int|
            0 <= x2 < 16 && 0 <= y2 < 16 && 0 <= z2 < 16 && !(x2 == x0 && y2 == y0 && z2 == z0)
                && !(x2 == x0 + 1 && y2 == y0 && z2 == z0) ==> !solid_at(m, x2, y2, z2),
        x == x0 || x == x0 + 1,
    ensures
        faces_upto(m, x, y0, z0, 6).len() == 30,
{
    assert(faces_upto(m, x, y0, z0, 0).len() == 0);
    if x == x0 {
        // the +X face looks at the other solid cell and is hidden
        assert(!face_visible(m, x, y0, z0, 0));
        assert(face_visible(m, x, y0, z0, 1));
        assert(faces_upto(m, x, y0, z0, 1).len() == 0);
        assert(faces_upto(m, x, y0, z0, 2).len() == 6);
    } else {
        // the -X face looks at the other solid cell and is hidden
        assert(face_visible(m, x, y0, z0, 0));
        assert(!face_visible(m, x, y0, z0, 1));
        assert(faces_upto(m, x, y0, z0, 1).len() == 6);
        assert(faces_upto(m, x, y0, z0, 2).len() == 6);
    }
    assert(face_visible(m, x, y0, z0, 2));
    assert(face_visible(m, x, y0, z0, 3));
    assert(face_visible(m, x, y0, z0, 4));
    assert(face_visible(m, x, y0, z0, 5));
    assert(faces_upto(m, x, y0, z0, 3).len() == 12);
    assert(faces_upto(m, x, y0, z0, 4).len() == 18);
    assert(faces_upto(m, x, y0, z0, 5).len() == 24);
    assert(faces_upto(m, x, y0, z0, 6).len() == 30);
}

proof fn lemma_row_pair(m: BlockModel, z: int, y: int, x: int, x0: int, y0: int, z0: int)
    requires
        0 <= z < 16,
        0 <= y < 16,
        0 <= x <= 16,
        0 <= x0 < 15,
        solid_at(m, x0, y0, z0),
        solid_at(m, x0 + 1, y0, z0),
        forall|x2: int, y2: int, z2: int|
            0 <= x2 < 16 && 0 <= y2 < 16 && 0 <= z2 < 16 && !(x2 == x0 && y2 == y0 && z2 == z0)
                && !(x2 == x0 + 1 && y2 == y0 && z2 == z0) ==> !solid_at(m, x2, y2, z2),
    ensures
        row_upto(m, z, y, x) == if z == z0 && y == y0 {
            (if x0 < x {
                faces_upto(m, x0, y0, z0, 6)
            } else {
                Seq::<Vertex>::empty()
            }) + (if x0 + 1 < x {
                faces_upto(m, x0 + 1, y0, z0, 6)
            } else {
                Seq::<Vertex>::empty()
            })
        } else {
            Seq::<Vertex>::empty()
        },
    decreases x,
{
    let left = faces_upto(m, x0, y0, z0, 6);
    let right = faces_upto(m, x0 + 1, y0, z0, 6);
    assert(Seq::<Vertex>::empty() + Seq::<Vertex>::empty() =~= Seq::<Vertex>::empty());
    if x > 0 {
        lemma_row_pair(m, z, y, x - 1, x0, y0, z0);
        if x - 1 == x0 && y == y0 && z == z0 {
            assert(Seq::<Vertex>::empty() + left =~= left + Seq::<Vertex>::empty());
        } else if x - 1 == x0 + 1 && y == y0 && z == z0 {
            assert((left + Seq::<Vertex>::empty()) + right =~= left + right);
        } else {
            lemma_faces_not_solid(m, x - 1, y, z, 6);
            assert(row_upto(m, z, y, x - 1) + Seq::<Vertex>::empty() =~= row_upto(
                m,
                z,
                y,
                x - 1,
            ));
        }
    }
}

proof fn lemma_layer_pair(m: BlockModel, z: int, y: int, x0: int, y0: int, z0: int)
    requires
        0 <= z < 16,
        0 <= y <= 16,
        0 <= x0 < 15,
        solid_at(m, x0, y0, z0),
        solid_at(m, x0 + 1, y0, z0),
        forall|x2: int, y2: int, z2: int|
            0 <= x2 < 16 && 0 <= y2 < 16 && 0 <= z2 < 16 && !(x2 == x0 && y2 == y0 && z2 == z0)
                && !(x2 == x0 + 1 && y2 == y0 && z2 == z0) ==> !solid_at(m, x2, y2, z2),
    ensures
        layer_upto(m, z, y) == if z == z0 && y0 < y {
            faces_upto(m, x0, y0, z0, 6) + faces_upto(m, x0 + 1, y0, z0, 6)
        } else {
            Seq::<Vertex>::empty()
        },
    decreases y,
{
    if y > 0 {
        lemma_layer_pair(m, z, y - 1, x0, y0, z0);
        lemma_row_pair(m, z, y - 1, 16, x0, y0, z0);
        let pair = faces_upto(m, x0, y0, z0, 6) + faces_upto(m, x0 + 1, y0, z0, 6);
        assert(Seq::<Vertex>::empty() + pair =~= pair);
        assert(layer_upto(m, z, y - 1) + Seq::<Vertex>::empty() =~= layer_upto(m, z, y - 1));
    }
}

proof fn lemma_chunk_pair(m: BlockModel, z: int, x0: int, y0: int, z0: int)
    requires
        0 <= z <= 16,
        0 <= x0 < 15,
        solid_at(m, x0, y0, z0),
        solid_at(m, x0 + 1, y0, z0),
        forall|x2: int, y2: int, z2: int|
            0 <= x2 < 16 && 0 <= y2 < 16 && 0 <= z2 < 16 && !(x2 == x0 && y2 == y0 && z2 == z0)
                && !(x2 == x0 + 1 && y2 == y0 && z2 == z0) ==> !solid_at(m, x2, y2, z2),
    ensures
        chunk_upto(m, z) == if z0 < z {
            faces_upto(m, x0, y0, z0, 6) + faces_upto(m, x0 + 1, y0, z0, 6)
        } else {
            Seq::<Vertex>::empty()
        },
    decreases z,
{
    if z > 0 {
        lemma_chunk_pair(m, z - 1, x0, y0, z0);
        lemma_layer_pair(m, z - 1, 16, x0, y0, z0);
        let pair = faces_upto(m, x0, y0, z0, 6) + faces_upto(m, x0 + 1, y0, z0, 6);
        assert(Seq::<Vertex>::empty() + pair =~= pair);
        assert(chunk_upto(m, z - 1) + Seq::<Vertex>::empty() =~= chunk_upto(m, z - 1));
    }
}

/// One template vertex, translated to cell `(x, y, z)`.
fn vert(
    x: usize,
    y: usize,
    z: usize,
    cx: i32,
    cy: i32,
    cz: i32,
    nx: i32,
    ny: i32,
    nz: i32,
    tu: i32,
    tv: i32,
) -> (v: Vertex)
    requires
        x < 16,
        y < 16,
        z < 16,
        -1 <= cx <= 1,
        -1 <= cy <= 1,
        -1 <= cz <= 1,
    ensures
        v == sv(
            x as int,
            y as int,
            z as int,
            cx as int,
            cy as int,
            cz as int,
            nx as int,
            ny as int,
            nz as int,
            tu as int,
            tv as int,
        ),
{
    Vertex {
        position: Vec3i { x: 2 * (x as i32) + cx, y: 2 * (y as i32) + cy, z: 2 * (z as i32) + cz },
        normal: Vec3i { x: nx, y: ny, z: nz },
        texcoord: Vec2i { x: tu, y: tv },
    }
}

/// Appends the six vertices of the `d` face of cell `(x, y, z)`.
fn push_face(mesh: &mut Mesh, d: usize, x: usize, y: usize, z: usize)
    requires
        d < 6,
        x < 16,
        y < 16,
        z < 16,
    ensures
        final(mesh)@ == old(mesh)@ + face_seq(d as int, x as int, y as int, z as int),
{
    if d == 0 {
        mesh.add_vertex(vert(x, y, z, 1, -1, -1, 1, 0, 0, 0, 0));
        mesh.add_vertex(vert(x, y, z, 1, 1, -1, 1, 0, 0, 0, 1));
        mesh.add_vertex(vert(x, y, z, 1, 1, 1, 1, 0, 0, 1, 1));
        mesh.add_vertex(vert(x, y, z, 1, -1, -1, 1, 0, 0, 0, 0));
        mesh.add_vertex(vert(x, y, z, 1, 1, 1, 1, 0, 0, 1, 1));
        mesh.add_vertex(vert(x, y, z, 1, -1, 1, 1, 0, 0, 1, 0));
    } else if d == 1 {
        mesh.add_vertex(vert(x, y, z, -1, -1, 1, -1, 0, 0, 0, 0));
        mesh.add_vertex(vert(x, y, z, -1, 1, 1, -1, 0, 0, 0, 1));
        mesh.add_vertex(vert(x, y, z, -1, 1, -1, -1, 0, 0, 1, 1));
        mesh.add_vertex(vert(x, y, z, -1, -1, 1, -1, 0, 0, 0, 0));
        mesh.add_vertex(vert(x, y, z, -1, 1, -1, -1, 0, 0, 1, 1));
        mesh.add_vertex(vert(x, y, z, -1, -1, -1, -1, 0, 0, 1, 0));
    } else if d == 2 {
        mesh.add_vertex(vert(x, y, z, -1, 1, -1, 0, 1, 0, 0, 0));
        mesh.add_vertex(vert(x, y, z, 1, 1, -1, 0, 1, 0, 0, 1));
        mesh.add_vertex(vert(x, y, z, 1, 1, 1, 0, 1, 0, 1, 1));
        mesh.add_vertex(vert(x, y, z, -1, 1, -1, 0, 1, 0, 0, 0));
        mesh.add_vertex(vert(x, y, z, 1, 1, 1, 0, 1, 0, 1, 1));
        mesh.add_vertex(vert(x, y, z, -1, 1, 1, 0, 1, 0, 1, 0));
    } else if d == 3 {
        mesh.add_vertex(vert(x, y, z, -1, -1, 1, 0, -1, 0, 0, 0));
        mesh.add_vertex(vert(x, y, z, 1, -1, 1, 0, -1, 0, 0, 1));
        mesh.add_vertex(vert(x, y, z, 1, -1, -1, 0, -1, 0, 1, 1));
        mesh.add_vertex(vert(x, y, z, -1, -1, 1, 0, -1, 0, 0, 0));
        mesh.add_vertex(vert(x, y, z, 1, -1, -1, 0, -1, 0, 1, 1));
        mesh.add_vertex(vert(x, y, z, -1, -1, -1, 0, -1, 0, 1, 0));
    } else if d == 4 {
        mesh.add_vertex(vert(x, y, z, -1, -1, 1, 0, 0, 1, 0, 0));
        mesh.add_vertex(vert(x, y, z, 1, -1, 1, 0, 0, 1, 0, 1));
        mesh.add_vertex(vert(x, y, z, 1, 1, 1, 0, 0, 1, 1, 1));
        mesh.add_vertex(vert(x, y, z, -1, -1, 1, 0, 0, 1, 0, 0));
        mesh.add_vertex(vert(x, y, z, 1, 1, 1, 0, 0, 1, 1, 1));
        mesh.add_vertex(vert(x, y, z, -1, 1, 1, 0, 0, 1, 1, 0));
    } else {
        mesh.add_vertex(vert(x, y, z, 1, -1, -1, 0, 0, -1, 0, 0));
        mesh.add_vertex(vert(x, y, z, -1, -1, -1, 0, 0, -1, 0, 1));
        mesh.add_vertex(vert(x, y, z, -1, 1, -1, 0, 0, -1, 1, 1));
        mesh.add_vertex(vert(x, y, z, 1, -1, -1, 0, 0, -1, 0, 0));
        mesh.add_vertex(vert(x, y, z, -1, 1, -1, 0, 0, -1, 1, 1));
        mesh.add_vertex(vert(x, y, z, 1, 1, -1, 0, 0, -1, 1, 0));
    }
    proof {
        assert(mesh@ =~= old(mesh)@ + face_seq(d as int, x as int, y as int, z as int));
    }
}

/// Whether the cell at `(x, y, z)` is present and solid, with out-of-bounds
/// positions absent.
fn contains_block(block: &Block, x: i32, y: i32, z: i32) -> (r: bool)
    requires
        block_wf(block@),
    ensures
        r == solid_at(block@, x as int, y as int, z as int),
{
    if x < 0 || y < 0 || z < 0 || x >= 16 || y >= 16 || z >= 16 {
        return false;
    }
    let node = block.get_node(Vec3i { x, y, z });
    let name = match block.get_name_by_id(node.id) {
        Some(n) => n,
        None => unreached(),
    };
    !is_air(name.as_str())
}

/// Meshes a chunk: emits, for every solid cell in (z, y, x) order and every
/// face direction in the fixed order, the face's six template vertices
/// whenever the face's neighbour is absent.  The result is exactly
/// `spec_mesh` of the chunk, so it is fully determined by the chunk's
/// contents.
pub fn make_mesh(block: &Block) -> (mesh: Mesh)
    requires
        block_wf(block@),
    ensures
        mesh@ == spec_mesh(block@),
{
    let mut mesh = Mesh::new();
    for z in 0..16usize
        invariant
            block_wf(block@),
            mesh@ == chunk_upto(block@, z as int),
    {
        let ghost layer_base = mesh@;
        for y in 0..16usize
            invariant
                block_wf(block@),
                z < 16,
                layer_base == chunk_upto(block@, z as int),
                mesh@ == layer_base + layer_upto(block@, z as int, y as int),
        {
            let ghost row_base = mesh@;
            for x in 0..16usize
                invariant
                    block_wf(block@),
                    z < 16,
                    y < 16,
                    row_base == chunk_upto(block@, z as int) + layer_upto(
                        block@,
                        z as int,
                        y as int,
                    ),
                    mesh@ == row_base + row_upto(block@, z as int, y as int, x as int),
            {
                let node = block.get_node(
                    Vec3i { x: x as i32, y: y as i32, z: z as i32 },
                );
                let name = match block.get_name_by_id(node.id) {
                    Some(n) => n,
                    None => unreached(),
                };
                let ghost cell_base = mesh@;
                if !is_air(name.as_str()) {
                    proof {
                        assert(solid_at(block@, x as int, y as int, z as int));
                    }
                    for d in 0..6usize
                        invariant
                            block_wf(block@),
                            x < 16,
                            y < 16,
                            z < 16,
                            solid_at(block@, x as int, y as int, z as int),
                            mesh@ == cell_base + faces_upto(
                                block@,
                                x as int,
                                y as int,
                                z as int,
                                d as int,
                            ),
                    {
                        let (dx, dy, dz): (i32, i32, i32) = if d == 0 {
                            (1, 0, 0)
                        } else if d == 1 {
                            (-1, 0, 0)
                        } else if d == 2 {
                            (0, 1, 0)
                        } else if d == 3 {
                            (0, -1, 0)
                        } else if d == 4 {
                            (0, 0, 1)
                        } else {
                            (0, 0, -1)
                        };
                        let has_neighbor = contains_block(
                            block,
                            x as i32 + dx,
                            y as i32 + dy,
                            z as i32 + dz,
                        );
                        if !has_neighbor {
                            push_face(&mut mesh, d, x, y, z);
                            proof {
                                assert(face_visible(
                                    block@,
                                    x as int,
                                    y as int,
                                    z as int,
                                    d as int,
                                ));
                                assert(mesh@ =~= cell_base + faces_upto(
                                    block@,
                                    x as int,
                                    y as int,
                                    z as int,
                                    d as int + 1,
                                ));
                            }
                        } else {
                            proof {
                                assert(!face_visible(
                                    block@,
                                    x as int,
                                    y as int,
                                    z as int,
                                    d as int,
                                ));
                                assert(faces_upto(
                                    block@,
                                    x as int,
                                    y as int,
                                    z as int,
                                    d as int + 1,
                                ) =~= faces_upto(block@, x as int, y as int, z as int, d as int));
                            }
                        }
                    }
                } else {
                    proof {
                        assert(!solid_at(block@, x as int, y as int, z as int));
                        lemma_faces_not_solid(block@, x as int, y as int, z as int, 6);
                        assert(mesh@ =~= cell_base + faces_upto(
                            block@,
                            x as int,
                            y as int,
                            z as int,
                            6,
                        ));
                    }
                }
                proof {
                    assert(mesh@ =~= row_base + row_upto(
                        block@,
                        z as int,
                        y as int,
                        x as int + 1,
                    ));
                }
            }
            proof {
                assert(mesh@ =~= layer_base + layer_upto(block@, z as int, y as int + 1));
            }
        }
        proof {
            assert(mesh@ =~= chunk_upto(block@, z as int + 1));
        }
    }
    mesh
}

} // verus!
