use vstd::prelude::*;

verus! {

/// Number of triangles the cube is drawn with: two for each of its six sides.
pub const CUBE_TRIANGLES: usize = 12;

/// The eight corners of a cube spanning -1 to +1 on each axis, as `x, y, z`
/// triples: first the four of the down (-z) side, then the four of the up
/// (+z) side, each in the order lower-left, lower-right, upper-right,
/// upper-left.
pub open spec fn corner_table() -> Seq<i8> {
    seq![
        -1i8, -1i8, -1i8,
        1i8, -1i8, -1i8,
        1i8, 1i8, -1i8,
        -1i8, 1i8, -1i8,
        -1i8, -1i8, 1i8,
        1i8, -1i8, 1i8,
        1i8, 1i8, 1i8,
        -1i8, 1i8, 1i8,
    ]
}

/// The cube's corners, as `corner_table` lists them.
pub fn cube_corners() -> (r: Vec<i8>)
    ensures
        r@ == corner_table(),
{
    let r: Vec<i8> = vec![
        -1, -1, -1,
        1, -1, -1,
        1, 1, -1,
        -1, 1, -1,
        -1, -1, 1,
        1, -1, 1,
        1, 1, 1,
        -1, 1, 1,
    ];
    assert(r@ =~= corner_table());
    r
}

/// Corner indices of the cube's triangles, three per triangle, wound so that
/// by the right-hand rule each triangle faces out of the cube. Sides in
/// order: down, up, bottom, top, left, right.
pub open spec fn triangle_table() -> Seq<u8> {
    seq![
        2u8, 1, 0, 0, 3, 2,
        4, 5, 6, 6, 7, 4,
        0, 5, 4, 0, 1, 5,
        3, 7, 6, 3, 6, 2,
        0, 4, 3, 4, 7, 3,
        2, 6, 5, 2, 5, 1,
    ]
}

/// The cube's triangles, as `triangle_table` lists them.
pub fn cube_triangles() -> (r: Vec<u8>)
    ensures
        r@ == triangle_table(),
        r@.len() == 3 * CUBE_TRIANGLES,
        forall|i: int| 0 <= i < r@.len() ==> #[trigger] r@[i] < 8,
{
    let r: Vec<u8> = vec![
        2, 1, 0, 0, 3, 2,
        4, 5, 6, 6, 7, 4,
        0, 5, 4, 0, 1, 5,
        3, 7, 6, 3, 6, 2,
        0, 4, 3, 4, 7, 3,
        2, 6, 5, 2, 5, 1,
    ];
    assert(r@ =~= triangle_table());
    r
}

/// One `r, g, b` colour for each triangle of the cube, in the order of
/// `cube_triangles`.
pub open spec fn color_table() -> Seq<u8> {
    seq![
        255u8, 0, 200, 255, 0, 255,
        200, 200, 200, 200, 200, 255,
        100, 200, 100, 100, 255, 100,
        200, 200, 100, 200, 255, 100,
        200, 0, 0, 255, 0, 0,
        0, 200, 0, 0, 255, 0,
    ]
}

/// The cube's triangle colours, as `color_table` lists them.
pub fn cube_triangle_colors() -> (r: Vec<u8>)
    ensures
        r@ == color_table(),
        r@.len() == 3 * CUBE_TRIANGLES,
{
    let r: Vec<u8> = vec![
        255, 0, 200, 255, 0, 255,
        200, 200, 200, 200, 200, 255,
        100, 200, 100, 100, 255, 100,
        200, 200, 100, 200, 255, 100,
        200, 0, 0, 255, 0, 0,
        0, 200, 0, 0, 255, 0,
    ];
    assert(r@ =~= color_table());
    r
}

/// Every index picks a whole `x, y, z` triple out of `corners`.
pub open spec fn indices_in_range(corners: Seq<i8>, indices: Seq<u8>) -> bool {
    forall|k: int| 0 <= k < indices.len() ==> 3 * (#[trigger] indices[k]) + 3 <= corners.len()
}

/// Entry `i` of the vertex-by-vertex layout: coordinate `i % 3` of the
/// corner that index `i / 3` names.
pub open spec fn vertex_coord(corners: Seq<i8>, indices: Seq<u8>, i: int) -> i8 {
    corners[3 * indices[i / 3] + i % 3]
}

/// Lays the corners out vertex by vertex: the triple of `corners` that each
/// index names, in the order of `indices`.
pub fn expand_vertices(corners: &Vec<i8>, indices: &Vec<u8>) -> (r: Vec<i8>)
    requires
        indices_in_range(corners@, indices@),
        3 * indices@.len() <= usize::MAX,
    ensures
        r@.len() == 3 * indices@.len(),
        forall|i: int| 0 <= i < r@.len() ==> #[trigger] r@[i] == vertex_coord(corners@, indices@, i),
{
    let n: usize = 3 * indices.len();
    let mut r: Vec<i8> = Vec::new();
    let mut i: usize = 0;
    while i < n
        invariant
            n == 3 * indices@.len(),
            i <= n,
            indices_in_range(corners@, indices@),
            r@.len() == i,
            forall|j: int| 0 <= j < i ==> #[trigger] r@[j] == vertex_coord(corners@, indices@, j),
        decreases n - i,
    {
        assert(i / 3 < indices@.len() && i % 3 < 3) by (nonlinear_arith)
            requires
                i < 3 * indices@.len(),
        ;
        let k: u8 = indices[i / 3];
        assert(3 * indices@[(i / 3) as int] + 3 <= corners@.len());
        r.push(corners[3 * (k as usize) + i % 3]);
        i = i + 1;
    }
    r
}

/// Entry `i` of the per-vertex colour layout: channel `i % 3` of triangle
/// `i / 9`, since each triangle has three vertices of three channels.
pub open spec fn vertex_color(colors: Seq<u8>, i: int) -> u8 {
    colors[3 * (i / 9) + i % 3]
}

/// Gives each of the three vertices of every triangle that triangle's
/// colour: each `r, g, b` triple of `colors` is repeated three times.
pub fn expand_colors(colors: &Vec<u8>) -> (r: Vec<u8>)
    requires
        colors@.len() % 3 == 0,
        3 * colors@.len() <= usize::MAX,
    ensures
        r@.len() == 3 * colors@.len(),
        forall|i: int| 0 <= i < r@.len() ==> #[trigger] r@[i] == vertex_color(colors@, i),
{
    let n: usize = 3 * colors.len();
    let mut r: Vec<u8> = Vec::new();
    let mut i: usize = 0;
    while i < n
        invariant
            n == 3 * colors@.len(),
            colors@.len() % 3 == 0,
            i <= n,
            r@.len() == i,
            forall|j: int| 0 <= j < i ==> #[trigger] r@[j] == vertex_color(colors@, j),
        decreases n - i,
    {
        assert(3 * (i / 9) + i % 3 < colors@.len()) by (nonlinear_arith)
            requires
                i < 3 * colors@.len(),
                colors@.len() % 3 == 0,
        ;
        r.push(colors[3 * (i / 9) + i % 3]);
        i = i + 1;
    }
    r
}

/// The cube's triangles ready for upload: vertex positions as `x, y, z`
/// triples and one `r, g, b` colour per vertex.
pub struct CubeMesh {
    pub positions: Vec<i8>,
    pub colors: Vec<u8>,
    pub tri_count: usize,
}

impl CubeMesh {
    /// Builds the cube from its corner, triangle and colour tables.
    pub fn new() -> (r: CubeMesh)
        ensures
            r.tri_count == CUBE_TRIANGLES,
            r.positions@.len() == 9 * CUBE_TRIANGLES,
            r.colors@.len() == 9 * CUBE_TRIANGLES,
            forall|i: int|
                0 <= i < r.positions@.len() ==> #[trigger] r.positions@[i] == vertex_coord(
                    corner_table(),
                    triangle_table(),
                    i,
                ),
            forall|i: int|
                0 <= i < r.colors@.len() ==> #[trigger] r.colors@[i] == vertex_color(
                    color_table(),
                    i,
                ),
    {
        let corners = cube_corners();
        let indices = cube_triangles();
        let tri_colors = cube_triangle_colors();
        assert forall|k: int| 0 <= k < indices@.len() implies 3 * (#[trigger] indices@[k]) + 3
            <= corners@.len() by {
            assert(indices@[k] < 8);
        }
        let positions = expand_vertices(&corners, &indices);
        let colors = expand_colors(&tri_colors);
        CubeMesh { positions, colors, tri_count: indices.len() / 3 }
    }
}

} // verus!
