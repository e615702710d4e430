//! Geometry: converting coordinate values to normalized-device-coordinate
//! offsets, placing an element by its pivot, and building a quad mesh.
//! All scalars are fixed-point ([`FP_ONE`] is 1.0); division truncates
//! toward zero.

use crate::metric::Metric;
use crate::metric::FP_ONE;
use vstd::arithmetic::div_mod::lemma_div_nonincreasing;
use vstd::arithmetic::div_mod::lemma_div_pos_is_pos;
use vstd::prelude::*;

verus! {

/// The largest hi-DPI factor accepted, in fixed point (16.0): headroom that
/// keeps every product inside `i64`.
pub const HIDPI_MAX: i64 = 1048576;

/// The largest magnitude accepted for a coordinate component, in fixed
/// point: headroom that keeps every product inside `i64`.
pub const MET_MAX: i64 = 0x1_0000_0000;

/// The largest magnitude accepted for a pivot component, in fixed point
/// (16.0): headroom that keeps the pivot-by-bounds product inside `i64`.
pub const PIVOT_MAX: i64 = 1048576;

/// The largest magnitude accepted for a mesh extent handed to translation.
pub const EXTENT_MAX: i64 = 0x200_0000_0000;

/// The largest magnitude a converted pixel offset can reach: a coordinate
/// component scaled by twice the largest hi-DPI factor over one pixel.
pub const NDC_MAX: i64 = 0x20_0000_0000;

/// Division truncating toward zero, as the executable code performs it.
pub open spec fn div_trunc(a: int, b: int) -> int {
    if a >= 0 {
        a / b
    } else {
        -((-a) / b)
    }
}

/// Truncating division on machine words.
pub fn div_trunc_i64(a: i64, b: i64) -> (r: i64)
    requires
        b > 0,
        a > i64::MIN,
    ensures
        r == div_trunc(a as int, b as int),
{
    if a >= 0 {
        proof {
            lemma_div_nonincreasing(a as int, b as int);
            lemma_div_pos_is_pos(a as int, b as int);
        }
        ((a as u64) / (b as u64)) as i64
    } else {
        proof {
            lemma_div_nonincreasing(-(a as int), b as int);
            lemma_div_pos_is_pos(-(a as int), b as int);
        }
        let m = ((-a) as u64) / (b as u64);
        -(m as i64)
    }
}

/// Truncating division keeps the magnitude from growing.
pub proof fn lemma_div_trunc_bound(a: int, b: int)
    requires
        b >= 1,
    ensures
        a >= 0 ==> 0 <= div_trunc(a, b) <= a,
        a < 0 ==> a <= div_trunc(a, b) <= 0,
{
    if a >= 0 {
        lemma_div_nonincreasing(a, b);
        lemma_div_pos_is_pos(a, b);
    } else {
        lemma_div_nonincreasing(-a, b);
        lemma_div_pos_is_pos(-a, b);
    }
}

/// A pixel offset as a normalized-device-coordinate delta:
/// `(p * 2 * hidpi) / screen`, on each axis.
pub open spec fn spec_to_pixel_pos(px: int, py: int, sw: int, sh: int, hidpi: int) -> (int, int) {
    (div_trunc(px * 2 * hidpi, FP_ONE * sw), div_trunc(py * 2 * hidpi, FP_ONE * sh))
}

/// Whether every component of a coordinate value is within [`MET_MAX`].
pub open spec fn metric_ok(m: Metric) -> bool {
    match m {
        Metric::Native(x, y) => -MET_MAX <= x <= MET_MAX && -MET_MAX <= y <= MET_MAX,
        Metric::Pixel(x, y) => -MET_MAX <= x <= MET_MAX && -MET_MAX <= y <= MET_MAX,
        Metric::Mixed((ax, ay), (bx, by)) => -MET_MAX <= ax <= MET_MAX && -MET_MAX <= ay <= MET_MAX
            && -MET_MAX <= bx <= MET_MAX && -MET_MAX <= by <= MET_MAX,
    }
}

/// Whether the screen size and hi-DPI factor are in their accepted ranges.
pub open spec fn screen_ok(sw: u32, sh: u32, hidpi: i64) -> bool {
    sw >= 1 && sh >= 1 && 1 <= hidpi <= HIDPI_MAX
}

/// Converts a pixel offset to a normalized-device-coordinate delta.
pub fn to_pixel_pos(px: i64, py: i64, ssize: (u32, u32), hidpi: i64) -> (r: (i64, i64))
    requires
        screen_ok(ssize.0, ssize.1, hidpi),
        -MET_MAX <= px <= MET_MAX,
        -MET_MAX <= py <= MET_MAX,
    ensures
        (r.0 as int, r.1 as int) == spec_to_pixel_pos(
            px as int,
            py as int,
            ssize.0 as int,
            ssize.1 as int,
            hidpi as int,
        ),
        -NDC_MAX <= r.0 <= NDC_MAX,
        -NDC_MAX <= r.1 <= NDC_MAX,
{
    proof {
        assert(px * 2 * hidpi <= MET_MAX * 2 * HIDPI_MAX && px * 2 * hidpi >= -(MET_MAX * 2
            * HIDPI_MAX)) by (nonlinear_arith)
            requires
                -MET_MAX <= px <= MET_MAX,
                1 <= hidpi <= HIDPI_MAX,
        ;
        assert(py * 2 * hidpi <= MET_MAX * 2 * HIDPI_MAX && py * 2 * hidpi >= -(MET_MAX * 2
            * HIDPI_MAX)) by (nonlinear_arith)
            requires
                -MET_MAX <= py <= MET_MAX,
                1 <= hidpi <= HIDPI_MAX,
        ;
        assert(FP_ONE * ssize.0 as int >= FP_ONE) by (nonlinear_arith)
            requires
                ssize.0 >= 1,
        ;
        assert(FP_ONE * ssize.1 as int >= FP_ONE) by (nonlinear_arith)
            requires
                ssize.1 >= 1,
        ;
    }
    let divx: i64 = FP_ONE * (ssize.0 as i64);
    let divy: i64 = FP_ONE * (ssize.1 as i64);
    let rx = div_trunc_i64(px * 2 * hidpi, divx);
    let ry = div_trunc_i64(py * 2 * hidpi, divy);
    proof {
        assert(px * 2 * hidpi == px as int * (2 * hidpi as int)) by (nonlinear_arith);
        assert(py * 2 * hidpi == py as int * (2 * hidpi as int)) by (nonlinear_arith);
        lemma_pixel_pos_in_range(px as int, 2 * hidpi as int, FP_ONE * ssize.0 as int);
        lemma_pixel_pos_in_range(py as int, 2 * hidpi as int, FP_ONE * ssize.1 as int);
    }
    (rx, ry)
}

/// The converted pixel offset never leaves [`NDC_MAX`]: the divisor is at
/// least the fixed-point unit times one pixel.
proof fn lemma_pixel_pos_in_range(p: int, m: int, d: int)
    requires
        -MET_MAX <= p <= MET_MAX,
        0 <= m <= 2 * HIDPI_MAX,
        d >= FP_ONE,
    ensures
        -NDC_MAX <= div_trunc(p * m, d) <= NDC_MAX,
{
    lemma_div_trunc_bound(p * m, d);
    if p >= 0 {
        assert(p * m >= 0 && p * m <= d * NDC_MAX) by (nonlinear_arith)
            requires
                0 <= p <= MET_MAX,
                0 <= m <= 2 * HIDPI_MAX,
                d >= FP_ONE,
        ;
        vstd::arithmetic::div_mod::lemma_multiply_divide_le(p * m, d, NDC_MAX as int);
    } else {
        let q = -p;
        assert(q * m >= 0 && q * m <= d * NDC_MAX && q * m == -(p * m)) by (nonlinear_arith)
            requires
                0 <= q <= MET_MAX,
                q == -p,
                0 <= m <= 2 * HIDPI_MAX,
                d >= FP_ONE,
        ;
        vstd::arithmetic::div_mod::lemma_multiply_divide_le(q * m, d, NDC_MAX as int);
    }
}

/// The size of an element in normalized device coordinates: a native part
/// doubles (the NDC cube spans two units per axis), a pixel part converts.
pub open spec fn spec_size_to_ndc(m: Metric, sw: int, sh: int, hidpi: int) -> (int, int) {
    match m {
        Metric::Native(px, py) => (px * 2, py * 2),
        Metric::Pixel(px, py) => spec_to_pixel_pos(px as int, py as int, sw, sh, hidpi),
        Metric::Mixed((ax, ay), (bx, by)) => {
            let vp = spec_to_pixel_pos(bx as int, by as int, sw, sh, hidpi);
            (ax * 2 + vp.0, ay * 2 + vp.1)
        },
    }
}

/// Converts a size or position to a normalized-device-coordinate pair.
pub fn compute_size_to_ndc(size: &Metric, ssize: (u32, u32), hidpi: i64) -> (r: (i64, i64))
    requires
        screen_ok(ssize.0, ssize.1, hidpi),
        metric_ok(*size),
    ensures
        (r.0 as int, r.1 as int) == spec_size_to_ndc(
            *size,
            ssize.0 as int,
            ssize.1 as int,
            hidpi as int,
        ),
        -(NDC_MAX + 2 * MET_MAX) <= r.0 <= NDC_MAX + 2 * MET_MAX,
        -(NDC_MAX + 2 * MET_MAX) <= r.1 <= NDC_MAX + 2 * MET_MAX,
{
    match size {
        Metric::Native(px, py) => (*px * 2, *py * 2),
        Metric::Pixel(px, py) => to_pixel_pos(*px, *py, ssize, hidpi),
        Metric::Mixed((ax, ay), (bx, by)) => {
            let vp = to_pixel_pos(*bx, *by, ssize, hidpi);
            (*ax * 2 + vp.0, *ay * 2 + vp.1)
        },
    }
}

/// The translation that places an element: the position mapped from
/// corner-origin UI space into the engine's centered space, shifted so the
/// pivot-weighted point of the element's bounds lands on the position.
/// The pivot must be of the native kind.
pub open spec fn spec_translate(
    pos: Metric,
    pivot: Metric,
    sw: int,
    sh: int,
    hidpi: int,
    w: int,
    h: int,
) -> (int, int, int)
    recommends
        pivot is Native,
{
    let xy = spec_size_to_ndc(pos, sw, sh, hidpi);
    match pivot {
        Metric::Native(px, py) => {
            let ox = div_trunc(px * w, FP_ONE as int);
            let oy = div_trunc(py * h, FP_ONE as int);
            (xy.0 - FP_ONE - ox, -xy.1 + FP_ONE + oy, 0)
        },
        _ => (0, 0, 0),
    }
}

/// Computes the translation for an element with the given bounds extents.
/// Supplying a pivot of any kind but native violates the contract.
pub fn compute_translate(
    pos: &Metric,
    pivot: &Metric,
    ssize: (u32, u32),
    hidpi: i64,
    w: i64,
    h: i64,
) -> (r: (i64, i64, i64))
    requires
        screen_ok(ssize.0, ssize.1, hidpi),
        metric_ok(*pos),
        pivot is Native,
        *pivot matches Metric::Native(px, py) ==> -PIVOT_MAX <= px <= PIVOT_MAX && -PIVOT_MAX
            <= py <= PIVOT_MAX,
        0 <= w <= EXTENT_MAX,
        0 <= h <= EXTENT_MAX,
    ensures
        (r.0 as int, r.1 as int, r.2 as int) == spec_translate(
            *pos,
            *pivot,
            ssize.0 as int,
            ssize.1 as int,
            hidpi as int,
            w as int,
            h as int,
        ),
{
    let xy = compute_size_to_ndc(pos, ssize, hidpi);
    match pivot {
        Metric::Native(px, py) => {
            proof {
                assert(*px * w <= PIVOT_MAX * EXTENT_MAX && *px * w >= -(PIVOT_MAX * EXTENT_MAX))
                    by (nonlinear_arith)
                    requires
                        -PIVOT_MAX <= *px <= PIVOT_MAX,
                        0 <= w <= EXTENT_MAX,
                ;
                assert(*py * h <= PIVOT_MAX * EXTENT_MAX && *py * h >= -(PIVOT_MAX * EXTENT_MAX))
                    by (nonlinear_arith)
                    requires
                        -PIVOT_MAX <= *py <= PIVOT_MAX,
                        0 <= h <= EXTENT_MAX,
                ;
                lemma_div_trunc_bound(*px * w, FP_ONE as int);
                lemma_div_trunc_bound(*py * h, FP_ONE as int);
            }
            let ox = div_trunc_i64(*px * w, FP_ONE);
            let oy = div_trunc_i64(*py * h, FP_ONE);
            (xy.0 - FP_ONE - ox, -xy.1 + FP_ONE + oy, 0)
        },
        _ => {
            proof {
                assert(false);
            }
            (0, 0, 0)
        },
    }
}

/// Vertex, texture-coordinate and index buffers for one mesh.  Vertices are
/// triples `(x, y, z)` and texture coordinates pairs `(u, v)`, flattened,
/// in fixed point.
#[derive(Debug)]
pub struct MeshData {
    pub vertices: Vec<i64>,
    pub uvs: Vec<i64>,
    pub indices: Vec<u16>,
}

/// A quad of the given normalized-device-coordinate size, extending down
/// and right from the origin, with the standard texture mapping.
pub fn make_quad_mesh_data(size: (i64, i64)) -> (r: MeshData)
    requires
        -(NDC_MAX + 2 * MET_MAX) <= size.0 <= NDC_MAX + 2 * MET_MAX,
        -(NDC_MAX + 2 * MET_MAX) <= size.1 <= NDC_MAX + 2 * MET_MAX,
    ensures
        r.vertices@ == seq![
            0i64,
            0i64,
            0i64,
            0i64,
            ((-size.1) as i64),
            0i64,
            size.0,
            ((-size.1) as i64),
            0i64,
            size.0,
            0i64,
            0i64,
        ],
        r.uvs@ == seq![0i64, FP_ONE, 0i64, 0i64, FP_ONE, 0i64, FP_ONE, FP_ONE],
        r.indices@ == seq![0u16, 1u16, 2u16, 0u16, 2u16, 3u16],
{
    let w = size.0;
    let h = size.1;
    let nh = -size.1;
    let vertices: Vec<i64> = vec![0, 0, 0, 0, nh, 0, w, nh, 0, w, 0, 0];
    let uvs: Vec<i64> = vec![0, FP_ONE, 0, 0, FP_ONE, 0, FP_ONE, FP_ONE];
    let indices: Vec<u16> = vec![0, 1, 2, 0, 2, 3];
    proof {
        assert(vertices@ =~= seq![
            0i64,
            0i64,
            0i64,
            0i64,
            ((-size.1) as i64),
            0i64,
            size.0,
            ((-size.1) as i64),
            0i64,
            size.0,
            0i64,
            0i64,
        ]);
        assert(uvs@ =~= seq![0i64, FP_ONE, 0i64, 0i64, FP_ONE, 0i64, FP_ONE, FP_ONE]);
        assert(indices@ =~= seq![0u16, 1u16, 2u16, 0u16, 2u16, 3u16]);
    }
    MeshData { vertices, uvs, indices }
}

} // verus!
