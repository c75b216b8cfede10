//! The tray icon pictures: a 22×22 RGBA drawing (a green disc while running, a
//! gray ring while stopped), and the choice among icon files on disk.
//!
//! The drawing measures the distance `d` from a pixel's center to the center of
//! the square. Pixel centers sit at half-integers, so in half-pixel units the
//! offsets are odd integers and `4·d²` is an integer: `d ≤ 9.5` is `4·d² ≤ 361`
//! and `d ≥ 7` is `4·d² ≥ 196`. Neither bound is ever met with equality (a sum of
//! two odd squares is 2 modulo 8), so the integer test draws exactly what the
//! square-root test on half-integer offsets draws.
use vstd::prelude::*;

verus! {

/// Width and height of a drawn icon, in pixels.
pub const ICON_SIZE: usize = 22;

/// Bytes per RGBA pixel.
pub const PIXEL_BYTES: usize = 4;

/// `(2 · 9.5)²`: four times the squared outer radius.
pub const OUTER_LIMIT: i64 = 361;

/// `(2 · 7)²`: four times the squared inner radius of the ring.
pub const INNER_LIMIT: i64 = 196;

/// Offset of pixel index `i` from the center of the square, in half pixels.
pub open spec fn half_offset(i: int) -> int {
    2 * i + 1 - ICON_SIZE as int
}

/// Four times the squared distance from the center of pixel `(row, col)` to the
/// center of the square.
pub open spec fn quad_distance(row: int, col: int) -> int {
    half_offset(col) * half_offset(col) + half_offset(row) * half_offset(row)
}

/// Opaque green.
pub open spec fn green() -> Seq<u8> {
    seq![34u8, 197u8, 94u8, 255u8]
}

/// Opaque gray.
pub open spec fn gray() -> Seq<u8> {
    seq![156u8, 163u8, 175u8, 255u8]
}

/// Fully transparent.
pub open spec fn clear() -> Seq<u8> {
    seq![0u8, 0u8, 0u8, 0u8]
}

/// Whether pixel `(row, col)` lies within the outer circle.
pub open spec fn in_disc(row: int, col: int) -> bool {
    quad_distance(row, col) <= OUTER_LIMIT
}

/// Whether pixel `(row, col)` lies on the ring between the two circles.
pub open spec fn on_ring(row: int, col: int) -> bool {
    in_disc(row, col) && quad_distance(row, col) >= INNER_LIMIT
}

/// The RGBA color of pixel `(row, col)`: a green disc while running, a gray ring
/// while stopped, transparent elsewhere.
pub open spec fn pixel_rgba(running: bool, row: int, col: int) -> Seq<u8> {
    if running {
        if in_disc(row, col) { green() } else { clear() }
    } else {
        if on_ring(row, col) { gray() } else { clear() }
    }
}

/// Byte `j` of the row-major RGBA buffer of the icon.
pub open spec fn icon_byte(running: bool, j: int) -> u8 {
    let p = j / PIXEL_BYTES as int;
    pixel_rgba(running, p / ICON_SIZE as int, p % ICON_SIZE as int)[j % PIXEL_BYTES as int]
}

/// The color of one pixel, as drawn into the buffer.
fn pixel_color(running: bool, row: usize, col: usize) -> (c: [u8; 4])
    requires
        row < ICON_SIZE,
        col < ICON_SIZE,
    ensures
        c@ == pixel_rgba(running, row as int, col as int),
{
    let dx: i64 = 2 * (col as i64) + 1 - 22;
    let dy: i64 = 2 * (row as i64) + 1 - 22;
    assert(-21 <= dx <= 21 && -21 <= dy <= 21);
    assert(0 <= dx * dx <= 441 && 0 <= dy * dy <= 441) by (nonlinear_arith)
        requires
            -21 <= dx <= 21,
            -21 <= dy <= 21,
    ;
    let q: i64 = dx * dx + dy * dy;
    let c: [u8; 4] = if running {
        if q <= OUTER_LIMIT {
            [34u8, 197u8, 94u8, 255u8]
        } else {
            [0u8, 0u8, 0u8, 0u8]
        }
    } else {
        if q <= OUTER_LIMIT && q >= INNER_LIMIT {
            [156u8, 163u8, 175u8, 255u8]
        } else {
            [0u8, 0u8, 0u8, 0u8]
        }
    };
    assert(c@ =~= pixel_rgba(running, row as int, col as int));
    c
}

proof fn lemma_byte_position(p: int, k: int)
    requires
        0 <= p,
        0 <= k < 4,
    ensures
        (4 * p + k) / 4 == p,
        (4 * p + k) % 4 == k,
{
    vstd::arithmetic::div_mod::lemma_fundamental_div_mod_converse(4 * p + k, 4, p, k);
}

/// The RGBA buffer of the tray icon for a state, row by row, four bytes per pixel.
pub fn icon_pixels(running: bool) -> (px: Vec<u8>)
    ensures
        px.len() == ICON_SIZE * ICON_SIZE * PIXEL_BYTES,
        forall|j: int| 0 <= j < px.len() ==> px[j] == icon_byte(running, j),
{
    let mut px: Vec<u8> = Vec::new();
    let total: usize = ICON_SIZE * ICON_SIZE;
    let mut p: usize = 0;
    while p < total
        invariant
            total == ICON_SIZE * ICON_SIZE,
            p <= total,
            px.len() == 4 * p,
            forall|j: int| 0 <= j < px.len() ==> px[j] == icon_byte(running, j),
        decreases total - p,
    {
        let row = p / ICON_SIZE;
        let col = p % ICON_SIZE;
        let c = pixel_color(running, row, col);
        let ghost before = px@;
        let mut k: usize = 0;
        while k < 4
            invariant
                p < total,
                total == ICON_SIZE * ICON_SIZE,
                row as int == p as int / ICON_SIZE as int,
                col as int == p as int % ICON_SIZE as int,
                c@ == pixel_rgba(running, row as int, col as int),
                k <= 4,
                px.len() == 4 * p + k,
                forall|j: int| 0 <= j < px.len() ==> px[j] == icon_byte(running, j),
            decreases 4 - k,
        {
            proof {
                lemma_byte_position(p as int, k as int);
            }
            px.push(c[k]);
            k = k + 1;
        }
        p = p + 1;
    }
    px
}

/// The byte at channel `k` of pixel `(row, col)` in the buffer that
/// `icon_pixels` returns is that channel of the pixel's color.
pub proof fn lemma_icon_layout(running: bool, row: int, col: int, k: int)
    requires
        0 <= row < ICON_SIZE,
        0 <= col < ICON_SIZE,
        0 <= k < PIXEL_BYTES,
    ensures
        icon_byte(running, (row * ICON_SIZE as int + col) * PIXEL_BYTES as int + k)
            == pixel_rgba(running, row, col)[k],
{
    let p = row * 22 + col;
    assert(0 <= p) by (nonlinear_arith)
        requires
            0 <= row,
            0 <= col,
            p == row * 22 + col,
    ;
    lemma_byte_position(p, k);
    vstd::arithmetic::div_mod::lemma_fundamental_div_mod_converse(p, 22, row, col);
}

/// The drawing is symmetric: mirroring it left to right, top to bottom, or
/// across the diagonal leaves every pixel's color unchanged.
pub proof fn lemma_icon_symmetric(running: bool, row: int, col: int)
    requires
        0 <= row < ICON_SIZE,
        0 <= col < ICON_SIZE,
    ensures
        pixel_rgba(running, row, col) == pixel_rgba(running, row, ICON_SIZE as int - 1 - col),
        pixel_rgba(running, row, col) == pixel_rgba(running, ICON_SIZE as int - 1 - row, col),
        pixel_rgba(running, row, col) == pixel_rgba(running, col, row),
{
    assert(half_offset(ICON_SIZE as int - 1 - col) == -half_offset(col));
    assert(half_offset(ICON_SIZE as int - 1 - row) == -half_offset(row));
    assert(half_offset(col) * half_offset(col) == (-half_offset(col)) * (-half_offset(col)))
        by (nonlinear_arith);
    assert(half_offset(row) * half_offset(row) == (-half_offset(row)) * (-half_offset(row)))
        by (nonlinear_arith);
}

/// The stopped ring lies inside the running disc, and its middle is hollow: every
/// pixel opaque in the stopped icon is opaque in the running icon, and the four
/// center pixels are green while running and transparent while stopped.
pub proof fn lemma_ring_inside_disc(row: int, col: int)
    requires
        0 <= row < ICON_SIZE,
        0 <= col < ICON_SIZE,
    ensures
        pixel_rgba(false, row, col) != clear() ==> pixel_rgba(true, row, col) == green(),
        (10 <= row <= 11 && 10 <= col <= 11) ==> pixel_rgba(true, row, col) == green()
            && pixel_rgba(false, row, col) == clear(),
{
    if 10 <= row <= 11 && 10 <= col <= 11 {
        assert(-1 <= half_offset(row) <= 1 && -1 <= half_offset(col) <= 1);
        assert(quad_distance(row, col) <= 2) by (nonlinear_arith)
            requires
                -1 <= half_offset(row) <= 1,
                -1 <= half_offset(col) <= 1,
                quad_distance(row, col) == half_offset(col) * half_offset(col) + half_offset(row)
                    * half_offset(row),
        ;
    }
}

} // verus!
