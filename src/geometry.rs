//! Vertex and index data for points, line lists and cubes.
use genmesh::generators::{IndexedPolygon, SharedVertex};
use vstd::prelude::*;

verus! {

/// A texture coordinate along u, held as the exact fraction `num / den`.
#[derive(Debug, Clone, Copy, PartialEq, Eq, Structural)]
pub struct TexU {
    pub num: u64,
    pub den: u64,
}

/// A vertex of a point or line primitive: the caller's position and the
/// u texture coordinate given to it.
#[derive(Debug)]
pub struct TexVertex<P> {
    pub pos: P,
    pub u: TexU,
}

/// The largest number of positions whose texture fractions fit in `u64`.
pub const MAX_POSITIONS: u64 = 0x7fff_ffff_ffff_ffff;

/// The u coordinate of point `i` out of `n`: the midpoint of the `i`-th of
/// `max(1, n)` equal parts of `[0, 1)`, that is `(2i + 1) / (2 max(1, n))`.
pub open spec fn point_u_spec(i: nat, n: nat) -> (nat, nat) {
    (2 * i + 1, 2 * (if n < 1 { 1 } else { n }))
}

/// The u coordinate of line endpoint `i` out of `n`: `i / (max(2, n) - 1)`.
pub open spec fn line_u_spec(i: nat, n: nat) -> (nat, nat) {
    (i, (if n < 2 { 1 } else { (n - 1) as nat }))
}

/// The u coordinate of point `i` of `n`.
pub fn point_u(i: usize, n: usize) -> (r: TexU)
    requires
        i < n <= MAX_POSITIONS,
    ensures
        (r.num as nat, r.den as nat) == point_u_spec(i as nat, n as nat),
        r.den > 0,
{
    let m: u64 = if n < 1 { 1 } else { n as u64 };
    TexU { num: 2 * (i as u64) + 1, den: 2 * m }
}

/// The u coordinate of line endpoint `i` of `n`.
pub fn line_u(i: usize, n: usize) -> (r: TexU)
    requires
        i < n,
    ensures
        (r.num as nat, r.den as nat) == line_u_spec(i as nat, n as nat),
        r.den > 0,
{
    let m: u64 = if n < 2 { 2 } else { n as u64 };
    TexU { num: i as u64, den: m - 1 }
}

/// One vertex per position, in order, to be drawn as a point list; the
/// `i`-th takes the u coordinate `point_u_spec(i, n)`.
pub fn points<P: Copy>(positions: &Vec<P>) -> (r: Vec<TexVertex<P>>)
    requires
        positions@.len() <= MAX_POSITIONS,
    ensures
        r@.len() == positions@.len(),
        forall|i: int|
            0 <= i < r@.len() ==> {
                &&& #[trigger] r@[i].pos == positions@[i]
                &&& (r@[i].u.num as nat, r@[i].u.den as nat) == point_u_spec(
                    i as nat,
                    positions@.len(),
                )
            },
{
    let n = positions.len();
    let mut r: Vec<TexVertex<P>> = Vec::new();
    let mut i: usize = 0;
    while i < n
        invariant
            n == positions@.len() <= MAX_POSITIONS,
            0 <= i <= n,
            r@.len() == i,
            forall|j: int|
                0 <= j < i ==> {
                    &&& #[trigger] r@[j].pos == positions@[j]
                    &&& (r@[j].u.num as nat, r@[j].u.den as nat) == point_u_spec(j as nat, n as nat)
                },
        decreases n - i,
    {
        r.push(TexVertex { pos: positions[i], u: point_u(i, n) });
        i = i + 1;
    }
    r
}

/// One vertex per position, in order, to be drawn as a line list (endpoints
/// `0-1`, `2-3`, ... pair up); the `i`-th takes the u coordinate
/// `line_u_spec(i, n)`.
pub fn lines<P: Copy>(positions: &Vec<P>) -> (r: Vec<TexVertex<P>>)
    ensures
        r@.len() == positions@.len(),
        forall|i: int|
            0 <= i < r@.len() ==> {
                &&& #[trigger] r@[i].pos == positions@[i]
                &&& (r@[i].u.num as nat, r@[i].u.den as nat) == line_u_spec(
                    i as nat,
                    positions@.len(),
                )
            },
{
    let n = positions.len();
    let mut r: Vec<TexVertex<P>> = Vec::new();
    let mut i: usize = 0;
    while i < n
        invariant
            n == positions@.len(),
            0 <= i <= n,
            r@.len() == i,
            forall|j: int|
                0 <= j < i ==> {
                    &&& #[trigger] r@[j].pos == positions@[j]
                    &&& (r@[j].u.num as nat, r@[j].u.den as nat) == line_u_spec(j as nat, n as nat)
                },
        decreases n - i,
    {
        r.push(TexVertex { pos: positions[i], u: line_u(i, n) });
        i = i + 1;
    }
    r
}

/// The sign (`-1` or `1`) of the coordinate that bit `bit` of corner number
/// `k` selects.
pub open spec fn axis_sign(k: int, bit: int) -> i8 {
    if (k / bit) % 2 == 1 {
        1i8
    } else {
        -1i8
    }
}

/// Corner `k` of the cube: bit 4 of `k` selects x, bit 2 y and bit 1 z.
pub open spec fn cube_corner(k: int) -> (i8, i8, i8) {
    (axis_sign(k, 4), axis_sign(k, 2), axis_sign(k, 1))
}

/// The six faces of the cube, each a quad of corner numbers.
pub open spec fn cube_quads() -> Seq<(usize, usize, usize, usize)> {
    seq![(0, 1, 3, 2), (6, 7, 5, 4), (4, 5, 1, 0), (3, 7, 6, 2), (0, 2, 6, 4), (5, 7, 3, 1)]
}

/// Index `j` (below 6) of the two triangles that split quad `q`:
/// `(x, y, z)` then `(x, z, w)`.
pub open spec fn quad_index(q: (usize, usize, usize, usize), j: int) -> usize {
    if j == 0 || j == 3 {
        q.0
    } else if j == 1 {
        q.1
    } else if j == 2 || j == 4 {
        q.2
    } else {
        q.3
    }
}

/// Relies on genmesh's `Cube` as a `SharedVertex` generator: eight shared
/// vertices, the `k`-th with coordinates picked by bits 4, 2 and 1 of `k`
/// (`1` where the bit is set, else `-1`).
#[verifier::external_body]
fn shared_corners() -> (r: Vec<(i8, i8, i8)>)
    ensures
        r@.len() == 8,
        forall|k: int| 0 <= k < 8 ==> #[trigger] r@[k] == cube_corner(k),
{
    genmesh::generators::Cube::new().shared_vertex_iter().map(
        |v| (v.0 as i8, v.1 as i8, v.2 as i8),
    ).collect()
}

/// Relies on genmesh's `Cube` as an `IndexedPolygon` generator: its six faces
/// as quads of shared vertex numbers, in the order of its face table.
#[verifier::external_body]
fn face_quads() -> (r: Vec<(usize, usize, usize, usize)>)
    ensures
        r@ == cube_quads(),
{
    genmesh::generators::Cube::new().indexed_polygon_iter().map(|q| (q.x, q.y, q.z, q.w)).collect()
}

/// The unit cube as indexed triangles.
pub struct CubeMesh {
    /// The eight shared corners, as the sign of each coordinate; a cube of
    /// size `s` puts corner `c` at `c * s / 2`.
    pub corners: Vec<(i8, i8, i8)>,
    /// Twelve triangles, three corner numbers each, two per face.
    pub indices: Vec<u16>,
}

/// The cube's eight corners and its faces split into a triangle list.
pub fn cube() -> (r: CubeMesh)
    ensures
        r.corners@.len() == 8,
        forall|k: int| 0 <= k < 8 ==> #[trigger] r.corners@[k] == cube_corner(k),
        r.indices@.len() == 36,
        forall|t: int|
            0 <= t < 36 ==> #[trigger] r.indices@[t] as usize == quad_index(
                cube_quads()[t / 6],
                t % 6,
            ),
        forall|t: int| 0 <= t < 36 ==> #[trigger] r.indices@[t] < 8,
{
    let corners = shared_corners();
    let quads = face_quads();
    let mut indices: Vec<u16> = Vec::new();
    let mut f: usize = 0;
    while f < quads.len()
        invariant
            quads@ == cube_quads(),
            0 <= f <= 6,
            indices@.len() == 6 * f,
            forall|t: int|
                0 <= t < 6 * f ==> #[trigger] indices@[t] as usize == quad_index(
                    cube_quads()[t / 6],
                    t % 6,
                ),
        decreases 6 - f,
    {
        let q = quads[f];
        assert(q.0 < 8 && q.1 < 8 && q.2 < 8 && q.3 < 8);
        let (x, y, z, w) = (q.0 as u16, q.1 as u16, q.2 as u16, q.3 as u16);
        let ghost before = indices@;
        indices.push(x);
        indices.push(y);
        indices.push(z);
        indices.push(x);
        indices.push(z);
        indices.push(w);
        assert forall|t: int| 0 <= t < 6 * (f + 1) implies #[trigger] indices@[t] as usize
            == quad_index(cube_quads()[t / 6], t % 6) by {
            if t >= 6 * f {
                assert(t / 6 == f as int);
                assert(indices@[t] == before.push(x).push(y).push(z).push(x).push(z).push(w)[t]);
            } else {
                assert(indices@[t] == before[t]);
            }
        }
        f = f + 1;
    }
    assert forall|t: int| 0 <= t < 36 implies #[trigger] indices@[t] < 8 by {
        assert(indices@[t] as usize == quad_index(cube_quads()[t / 6], t % 6));
        assert(0 <= t / 6 < 6);
    }
    CubeMesh { corners, indices }
}

} // verus!
