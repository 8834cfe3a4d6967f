//! The tray icon: an outlined mouse pointer with click rays, drawn into a
//! square ARGB pixel buffer.

use vstd::prelude::*;
use crate::canvas::{painted, lemma_painted_union, lemma_painted_same_cov, lemma_write_pixel, lemma_painted_none};

verus! {

/// Whether (a, b) lies in the square of half-width `r` around (cx, cy).
pub open spec fn in_square(cx: int, cy: int, r: int, a: int, b: int) -> bool {
    cx - r <= a <= cx + r && cy - r <= b <= cy + r
}

/// The pixels of a `size` x `size` buffer within the square of half-width
/// `r` around (cx, cy).
pub open spec fn square_cov(cx: int, cy: int, r: int, size: int) -> spec_fn(int, int) -> bool {
    |a: int, b: int| 0 <= a < size && 0 <= b < size && in_square(cx, cy, r, a, b)
}

/// Sets pixel (x, y) of a `size` x `size` buffer to `argb`; a pixel outside
/// the buffer is ignored.
pub fn put(data: &mut [u8], size: usize, x: usize, y: usize, argb: [u8; 4])
    requires
        old(data)@.len() == size * size * 4,
    ensures
        final(data)@ == painted(old(data)@, size as int,
            |a: int, b: int| a == x && b == y && x < size && y < size, argb@),
{
    if x >= size || y >= size {
        proof {
            lemma_painted_none(data@, size as int, |a: int, b: int| a == x && b == y && x < size && y < size, argb@);
        }
        return;
    }
    let n = data.len();
    proof {
        assert(((y as int) * (size as int) + (x as int)) * 4 + 3 < (size as int) * (size as int) * 4) by (nonlinear_arith)
            requires
                x < size,
                y < size,
        ;
    }
    let offset = (y * size + x) * 4;
    let ghost before = data@;
    data[offset] = argb[0];
    data[offset + 1] = argb[1];
    data[offset + 2] = argb[2];
    data[offset + 3] = argb[3];
    proof {
        lemma_write_pixel(before, size as int, x as int, y as int, argb@);
        lemma_painted_same_cov(before, size as int, |a: int, b: int| a == x && b == y,
            |a: int, b: int| a == x && b == y && x < size && y < size, argb@);
        assert(data@ =~= before.update(offset as int, argb@[0]).update(offset + 1, argb@[1])
            .update(offset + 2, argb@[2]).update(offset + 3, argb@[3]));
    }
}

/// A bound on coordinates that keeps all line arithmetic within `i32`.
pub open spec fn coord_ok(v: int) -> bool {
    -0x10_0000 <= v <= 0x10_0000
}

/// Paints the square of half-width `radius` around (cx, cy), clipped to the
/// buffer.
fn put_square(data: &mut [u8], size: usize, cx: i32, cy: i32, radius: i32, argb: [u8; 4])
    requires
        old(data)@.len() == size * size * 4,
        coord_ok(cx as int),
        coord_ok(cy as int),
        -0x10_0000 <= radius <= 0x10_0000,
    ensures
        final(data)@.len() == old(data)@.len(),
        final(data)@ == painted(old(data)@, size as int, square_cov(cx as int, cy as int, radius as int, size as int), argb@),
{
    let ghost orig = data@;
    let ghost w = size as int;
    if radius < 0 {
        proof {
            lemma_painted_none(orig, w, square_cov(cx as int, cy as int, radius as int, w), argb@);
        }
        return;
    }
    let mut yy: i32 = cy - radius;
    proof {
        lemma_painted_none(orig, w, |a: int, b: int| 0 <= a < w && 0 <= b < w
            && cx - radius <= a <= cx + radius && cy - radius <= b < yy, argb@);
    }
    while yy <= cy + radius
        invariant
            data@.len() == orig.len(),
            orig.len() == size * size * 4,
            w == size as int,
            coord_ok(cx as int),
            coord_ok(cy as int),
            0 <= radius <= 0x10_0000,
            cy - radius <= yy <= cy + radius + 1,
            data@ == painted(orig, w, |a: int, b: int| 0 <= a < w && 0 <= b < w
                && cx - radius <= a <= cx + radius && cy - radius <= b < yy, argb@),
        decreases cy + radius + 1 - yy,
    {
        let mut xx: i32 = cx - radius;
        while xx <= cx + radius
            invariant
                data@.len() == orig.len(),
                orig.len() == size * size * 4,
                w == size as int,
                coord_ok(cx as int),
                coord_ok(cy as int),
                0 <= radius <= 0x10_0000,
                cy - radius <= yy <= cy + radius,
                cx - radius <= xx <= cx + radius + 1,
                data@ == painted(orig, w, |a: int, b: int| 0 <= a < w && 0 <= b < w
                    && cx - radius <= a <= cx + radius
                    && (cy - radius <= b < yy || (b == yy && a < xx)), argb@),
            decreases cx + radius + 1 - xx,
        {
            let ghost before = data@;
            let ghost f = |a: int, b: int| 0 <= a < w && 0 <= b < w
                && cx - radius <= a <= cx + radius
                && (cy - radius <= b < yy || (b == yy && a < xx));
            if xx >= 0 && yy >= 0 {
                put(data, size, xx as usize, yy as usize, argb);
                proof {
                    let g = |a: int, b: int| a == xx as usize && b == yy as usize && (xx as usize) < size && (yy as usize) < size;
                    let h = |a: int, b: int| 0 <= a < w && 0 <= b < w
                        && cx - radius <= a <= cx + radius
                        && (cy - radius <= b < yy || (b == yy && a < xx + 1));
                    lemma_painted_union(orig, w, f, g, h, argb@);
                }
            } else {
                proof {
                    lemma_painted_same_cov(orig, w, f, |a: int, b: int| 0 <= a < w && 0 <= b < w
                        && cx - radius <= a <= cx + radius
                        && (cy - radius <= b < yy || (b == yy && a < xx + 1)), argb@);
                }
            }
            xx = xx + 1;
        }
        proof {
            lemma_painted_same_cov(orig, w, |a: int, b: int| 0 <= a < w && 0 <= b < w
                && cx - radius <= a <= cx + radius
                && (cy - radius <= b < yy || (b == yy && a < xx)),
                |a: int, b: int| 0 <= a < w && 0 <= b < w
                && cx - radius <= a <= cx + radius && cy - radius <= b < yy + 1, argb@);
        }
        yy = yy + 1;
    }
    proof {
        lemma_painted_same_cov(orig, w, |a: int, b: int| 0 <= a < w && 0 <= b < w
            && cx - radius <= a <= cx + radius && cy - radius <= b < yy,
            square_cov(cx as int, cy as int, radius as int, w), argb@);
    }
}

pub open spec fn iabs(v: int) -> int {
    if v < 0 { -v } else { v }
}

/// The points that Bresenham's walk visits from (x, y) to (x1, y1), with the
/// line's constants `dx` (>= 0), `dy` (<= 0), steps `sx`, `sy` and the
/// running error `err`: a step in x when `2 * err >= dy`, a step in y when
/// `2 * err <= dx`, until the end point is reached.
pub open spec fn walk(x: int, y: int, x1: int, y1: int, dx: int, dy: int, sx: int, sy: int, err: int) -> Seq<(int, int)>
    decreases iabs(x1 - x) + iabs(y1 - y),
{
    if x == x1 && y == y1 {
        seq![(x, y)]
    } else {
        let e2 = 2 * err;
        let nx = if e2 >= dy { x + sx } else { x };
        let err1 = if e2 >= dy { err + dy } else { err };
        let ny = if e2 <= dx { y + sy } else { y };
        let err2 = if e2 <= dx { err1 + dx } else { err1 };
        if iabs(x1 - nx) + iabs(y1 - ny) < iabs(x1 - x) + iabs(y1 - y) {
            seq![(x, y)] + walk(nx, ny, x1, y1, dx, dy, sx, sy, err2)
        } else {
            seq![(x, y)]
        }
    }
}

/// The points of the line from (x0, y0) to (x1, y1), in drawing order.
pub open spec fn line_points(x0: int, y0: int, x1: int, y1: int) -> Seq<(int, int)> {
    let dx = iabs(x1 - x0);
    let dy = -iabs(y1 - y0);
    walk(x0, y0, x1, y1, dx, dy, if x0 < x1 { 1 } else { -1 }, if y0 < y1 { 1 } else { -1 }, dx + dy)
}

/// The pixels of a `size` x `size` buffer within `r` of one of the points.
pub open spec fn line_cov(pts: Seq<(int, int)>, r: int, size: int) -> spec_fn(int, int) -> bool {
    |a: int, b: int| 0 <= a < size && 0 <= b < size
        && exists|k: int| 0 <= k < pts.len() && #[trigger] in_square(pts[k].0, pts[k].1, r, a, b)
}

/// The buffer after drawing the line from `from` to `to` with pen half-width `r`.
pub open spec fn drawn_line(data: Seq<u8>, size: int, from: (int, int), to: (int, int), argb: Seq<u8>, r: int) -> Seq<u8> {
    painted(data, size, line_cov(line_points(from.0, from.1, to.0, to.1), r, size), argb)
}

proof fn lemma_line_cov_push(pts: Seq<(int, int)>, p: (int, int), r: int, size: int)
    ensures
        forall|a: int, b: int| #[trigger] line_cov(pts.push(p), r, size)(a, b)
            == (line_cov(pts, r, size)(a, b) || square_cov(p.0, p.1, r, size)(a, b)),
{
    assert forall|a: int, b: int| #[trigger] line_cov(pts.push(p), r, size)(a, b)
        == (line_cov(pts, r, size)(a, b) || square_cov(p.0, p.1, r, size)(a, b)) by {
        let q = pts.push(p);
        if line_cov(q, r, size)(a, b) {
            let k = choose|k: int| 0 <= k < q.len() && #[trigger] in_square(q[k].0, q[k].1, r, a, b);
            if k < pts.len() {
                assert(in_square(pts[k].0, pts[k].1, r, a, b));
            }
        }
        if line_cov(pts, r, size)(a, b) {
            let k = choose|k: int| 0 <= k < pts.len() && #[trigger] in_square(pts[k].0, pts[k].1, r, a, b);
            assert(q[k] == pts[k]);
            assert(in_square(q[k].0, q[k].1, r, a, b));
        }
        if square_cov(p.0, p.1, r, size)(a, b) {
            assert(q[pts.len() as int] == p);
            assert(in_square(q[pts.len() as int].0, q[pts.len() as int].1, r, a, b));
        }
    }
}

/// Draws the line from `from` to `to` with Bresenham's algorithm, painting
/// the square of half-width `radius` around every point, clipped to the buffer.
pub fn draw_line(data: &mut [u8], size: usize, from: (i32, i32), to: (i32, i32), argb: [u8; 4], radius: i32)
    requires
        old(data)@.len() == size * size * 4,
        coord_ok(from.0 as int),
        coord_ok(from.1 as int),
        coord_ok(to.0 as int),
        coord_ok(to.1 as int),
        -0x10_0000 <= radius <= 0x10_0000,
    ensures
        final(data)@.len() == old(data)@.len(),
        final(data)@ == drawn_line(old(data)@, size as int, (from.0 as int, from.1 as int), (to.0 as int, to.1 as int), argb@, radius as int),
{
    let (x0, y0) = from;
    let (x1, y1) = to;
    let dx: i32 = if x1 >= x0 { x1 - x0 } else { x0 - x1 };
    let sx: i32 = if x0 < x1 { 1 } else { -1 };
    let dy: i32 = if y1 >= y0 { -(y1 - y0) } else { -(y0 - y1) };
    let sy: i32 = if y0 < y1 { 1 } else { -1 };
    let mut err: i32 = dx + dy;
    let mut x: i32 = x0;
    let mut y: i32 = y0;
    let ghost orig = data@;
    let ghost w = size as int;
    let ghost big_dy: int = -dy;
    let ghost lp = line_points(x0 as int, y0 as int, x1 as int, y1 as int);
    let ghost mut i: int = 0;
    let ghost mut j: int = 0;
    let ghost mut u: int = 0;
    let ghost mut done: Seq<(int, int)> = seq![(x0 as int, y0 as int)];
    put_square(data, size, x, y, radius, argb);
    proof {
        lemma_line_cov_push(Seq::empty(), (x0 as int, y0 as int), radius as int, w);
        lemma_painted_same_cov(orig, w, square_cov(x0 as int, y0 as int, radius as int, w),
            line_cov(done, radius as int, w), argb@);
        assert(done.drop_last() + walk(x as int, y as int, x1 as int, y1 as int, dx as int, dy as int, sx as int, sy as int, err as int) =~= lp);
        assert(u == (dx as int) * j - big_dy * i) by (nonlinear_arith)
            requires i == 0, j == 0, u == 0;
    }
    while !(x == x1 && y == y1)
        invariant
            data@.len() == orig.len(),
            orig.len() == size * size * 4,
            w == size as int,
            coord_ok(x0 as int), coord_ok(y0 as int), coord_ok(x1 as int), coord_ok(y1 as int),
            -0x10_0000 <= radius <= 0x10_0000,
            dx == iabs(x1 - x0),
            big_dy == iabs(y1 - y0),
            dy == -big_dy,
            sx == (if x0 < x1 { 1int } else { -1int }),
            sy == (if y0 < y1 { 1int } else { -1int }),
            0 <= i <= dx,
            0 <= j <= big_dy,
            x == x0 + sx * i,
            y == y0 + sy * j,
            iabs(x1 - x) == dx - i,
            iabs(y1 - y) == big_dy - j,
            u == (dx as int) * j - big_dy * i,
            err == u + dx - big_dy,
            -(dx + big_dy) <= 2 * u <= dx + big_dy,
            done.len() > 0,
            done.last() == (x as int, y as int),
            done.drop_last() + walk(x as int, y as int, x1 as int, y1 as int, dx as int, dy as int, sx as int, sy as int, err as int) == lp,
            data@ == painted(orig, w, line_cov(done, radius as int, w), argb@),
        decreases iabs(x1 - x) + iabs(y1 - y),
    {
        let ghost old_x = x as int;
        let ghost old_y = y as int;
        let ghost old_err = err as int;
        let e2 = 2 * err;
        let step_x = e2 >= dy;
        let step_y = e2 <= dx;
        proof {
            // At least one coordinate moves, and neither passes its end point.
            if i == dx && step_x {
                assert(j < big_dy);
                assert(false) by (nonlinear_arith)
                    requires
                        i == dx, j < big_dy, 0 <= j, dx >= 0,
                        u == dx * j - big_dy * i,
                        2 * (u + dx - big_dy) >= -big_dy;
            }
            if j == big_dy && step_y {
                assert(i < dx);
                assert(false) by (nonlinear_arith)
                    requires
                        j == big_dy, i < dx, 0 <= i, big_dy >= 0,
                        u == dx * j - big_dy * i,
                        2 * (u + dx - big_dy) <= dx;
            }
        }
        if step_x {
            err = err + dy;
            x = x + sx;
        }
        if step_y {
            err = err + dx;
            y = y + sy;
        }
        proof {
            let ni = if step_x { i + 1 } else { i };
            let nj = if step_y { j + 1 } else { j };
            let nu = u - (if step_x { big_dy } else { 0 }) + (if step_y { dx as int } else { 0 });
            assert(nu == (dx as int) * nj - big_dy * ni) by (nonlinear_arith)
                requires
                    u == (dx as int) * j - big_dy * i,
                    ni == i + (if step_x { 1int } else { 0int }),
                    nj == j + (if step_y { 1int } else { 0int }),
                    nu == u - (if step_x { big_dy } else { 0 }) + (if step_y { dx as int } else { 0 });
            assert(x == x0 + sx * ni) by (nonlinear_arith)
                requires
                    old_x == x0 + sx * i,
                    x == old_x + (if step_x { sx as int } else { 0 }),
                    ni == i + (if step_x { 1int } else { 0int });
            assert(y == y0 + sy * nj) by (nonlinear_arith)
                requires
                    old_y == y0 + sy * j,
                    y == old_y + (if step_y { sy as int } else { 0 }),
                    nj == j + (if step_y { 1int } else { 0int });
            assert(walk(old_x, old_y, x1 as int, y1 as int, dx as int, dy as int, sx as int, sy as int, old_err)
                == seq![(old_x, old_y)] + walk(x as int, y as int, x1 as int, y1 as int, dx as int, dy as int, sx as int, sy as int, err as int));
            let old_done = done;
            i = ni;
            j = nj;
            u = nu;
            done = done.push((x as int, y as int));
            assert(done.drop_last() =~= old_done);
            assert(old_done.drop_last() + seq![(old_x, old_y)] =~= old_done);
            assert(done.drop_last() + walk(x as int, y as int, x1 as int, y1 as int, dx as int, dy as int, sx as int, sy as int, err as int)
                =~= old_done.drop_last() + (seq![(old_x, old_y)] + walk(x as int, y as int, x1 as int, y1 as int, dx as int, dy as int, sx as int, sy as int, err as int)));
        }
        let ghost before = data@;
        put_square(data, size, x, y, radius, argb);
        proof {
            let old_done = done.drop_last();
            lemma_line_cov_push(old_done, (x as int, y as int), radius as int, w);
            lemma_painted_union(orig, w, line_cov(old_done, radius as int, w),
                square_cov(x as int, y as int, radius as int, w), line_cov(done, radius as int, w), argb@);
        }
    }
    proof {
        assert(walk(x as int, y as int, x1 as int, y1 as int, dx as int, dy as int, sx as int, sy as int, err as int) == seq![(x as int, y as int)]);
        assert(done.drop_last() + seq![(x as int, y as int)] =~= done);
    }
}

/// An ARGB icon image: `width` x `height` pixels of four bytes each.
#[derive(Debug, Clone)]
pub struct TrayIcon {
    pub width: i32,
    pub height: i32,
    pub data: Vec<u8>,
}

pub open spec fn border_argb() -> Seq<u8> { seq![0xffu8, 0x11u8, 0x18u8, 0x27u8] }
pub open spec fn pointer_argb() -> Seq<u8> { seq![0xffu8, 0xf8u8, 0xfau8, 0xfcu8] }
pub open spec fn tail_argb() -> Seq<u8> { seq![0xffu8, 0x25u8, 0x63u8, 0xebu8] }
pub open spec fn ray_argb() -> Seq<u8> { seq![0xffu8, 0xf5u8, 0x9eu8, 0x0bu8] }

/// The dark frame: the outer five pixels on every side.
pub open spec fn border_cov(size: int) -> spec_fn(int, int) -> bool {
    |a: int, b: int| 0 <= a < size && 0 <= b < size && (a < 5 || b < 5 || a + 6 > size || b + 6 > size)
}

/// The pixels of the tray icon of side `size`: the frame, the pointer
/// outline, its tail, and three click rays, drawn in that order onto a
/// transparent square.
pub open spec fn icon_pixels(size: int) -> Seq<u8> {
    let d0 = Seq::new((size * size * 4) as nat, |i: int| 0u8);
    let d1 = painted(d0, size, border_cov(size), border_argb());
    let d2 = drawn_line(d1, size, (7, 6), (18, 28), pointer_argb(), 2);
    let d3 = drawn_line(d2, size, (18, 28), (21, 19), pointer_argb(), 2);
    let d4 = drawn_line(d3, size, (21, 19), (30, 16), pointer_argb(), 2);
    let d5 = drawn_line(d4, size, (30, 16), (7, 6), pointer_argb(), 2);
    let d6 = drawn_line(d5, size, (21, 20), (30, 29), tail_argb(), 2);
    let d7 = drawn_line(d6, size, (5, 2), (7, 9), ray_argb(), 1);
    let d8 = drawn_line(d7, size, (2, 12), (9, 14), ray_argb(), 1);
    drawn_line(d8, size, (14, 2), (11, 8), ray_argb(), 1)
}

/// The side of the tray icon for a requested size: at least 16.
pub open spec fn icon_side(size: i32) -> int {
    if size < 16 { 16 } else { size as int }
}

fn paint_border(data: &mut [u8], size: usize)
    requires
        old(data)@.len() == size * size * 4,
    ensures
        final(data)@ == painted(old(data)@, size as int, border_cov(size as int), border_argb()),
{
    let ghost orig = data@;
    let ghost w = size as int;
    let argb: [u8; 4] = [0xff, 0x11, 0x18, 0x27];
    assert(argb@ =~= border_argb());
    let mut y: usize = 0;
    proof {
        lemma_painted_none(orig, w, |a: int, b: int| 0 <= a < w && 0 <= b < y
            && (a < 5 || b < 5 || a + 6 > w || b + 6 > w), argb@);
    }
    while y < size
        invariant
            data@.len() == orig.len(),
            orig.len() == size * size * 4,
            w == size as int,
            0 <= y <= size,
            argb@ == border_argb(),
            data@ == painted(orig, w, |a: int, b: int| 0 <= a < w && 0 <= b < y
                && (a < 5 || b < 5 || a + 6 > w || b + 6 > w), argb@),
        decreases size - y,
    {
        let mut x: usize = 0;
        while x < size
            invariant
                data@.len() == orig.len(),
                orig.len() == size * size * 4,
                w == size as int,
                0 <= y < size,
                0 <= x <= size,
                argb@ == border_argb(),
                data@ == painted(orig, w, |a: int, b: int| 0 <= a < w && 0 <= b < w
                    && (b < y || (b == y && a < x))
                    && (a < 5 || b < 5 || a + 6 > w || b + 6 > w), argb@),
            decreases size - x,
        {
            let ghost f = |a: int, b: int| 0 <= a < w && 0 <= b < w
                && (b < y || (b == y && a < x))
                && (a < 5 || b < 5 || a + 6 > w || b + 6 > w);
            let ghost h = |a: int, b: int| 0 <= a < w && 0 <= b < w
                && (b < y || (b == y && a < x + 1))
                && (a < 5 || b < 5 || a + 6 > w || b + 6 > w);
            let bg = x < 5 || y < 5 || size < 6 || x > size - 6 || y > size - 6;
            if bg {
                put(data, size, x, y, argb);
                proof {
                    lemma_painted_union(orig, w, f,
                        |a: int, b: int| a == x && b == y && x < size && y < size, h, argb@);
                }
            } else {
                proof {
                    lemma_painted_same_cov(orig, w, f, h, argb@);
                }
            }
            x = x + 1;
        }
        proof {
            lemma_painted_same_cov(orig, w,
                |a: int, b: int| 0 <= a < w && 0 <= b < w
                    && (b < y || (b == y && a < x))
                    && (a < 5 || b < 5 || a + 6 > w || b + 6 > w),
                |a: int, b: int| 0 <= a < w && 0 <= b < y + 1
                    && (a < 5 || b < 5 || a + 6 > w || b + 6 > w), argb@);
        }
        y = y + 1;
    }
    proof {
        lemma_painted_same_cov(orig, w,
            |a: int, b: int| 0 <= a < w && 0 <= b < y && (a < 5 || b < 5 || a + 6 > w || b + 6 > w),
            border_cov(w), argb@);
    }
}

/// The tray icon, `size` pixels square (at least 16).
pub fn tray_icon(size: i32) -> (icon: TrayIcon)
    requires
        icon_side(size) * icon_side(size) * 4 <= usize::MAX,
    ensures
        icon.width == icon_side(size),
        icon.height == icon_side(size),
        icon.data@ == icon_pixels(icon_side(size)),
{
    let side: i32 = if size < 16 { 16 } else { size };
    let n = side as usize;
    proof {
        assert((n as int) * (n as int) * 4 <= usize::MAX);
    }
    let mut data: Vec<u8> = vec![0u8; n * n * 4];
    let ghost w = n as int;
    proof {
        assert(data@ =~= Seq::new((w * w * 4) as nat, |i: int| 0u8));
    }
    paint_border(data.as_mut_slice(), n);
    draw_line(data.as_mut_slice(), n, (7, 6), (18, 28), [0xff, 0xf8, 0xfa, 0xfc], 2);
    draw_line(data.as_mut_slice(), n, (18, 28), (21, 19), [0xff, 0xf8, 0xfa, 0xfc], 2);
    draw_line(data.as_mut_slice(), n, (21, 19), (30, 16), [0xff, 0xf8, 0xfa, 0xfc], 2);
    draw_line(data.as_mut_slice(), n, (30, 16), (7, 6), [0xff, 0xf8, 0xfa, 0xfc], 2);
    draw_line(data.as_mut_slice(), n, (21, 20), (30, 29), [0xff, 0x25, 0x63, 0xeb], 2);
    draw_line(data.as_mut_slice(), n, (5, 2), (7, 9), [0xff, 0xf5, 0x9e, 0x0b], 1);
    draw_line(data.as_mut_slice(), n, (2, 12), (9, 14), [0xff, 0xf5, 0x9e, 0x0b], 1);
    draw_line(data.as_mut_slice(), n, (14, 2), (11, 8), [0xff, 0xf5, 0x9e, 0x0b], 1);
    proof {
        assert([0xffu8, 0xf8u8, 0xfau8, 0xfcu8]@ =~= pointer_argb());
        assert([0xffu8, 0x25u8, 0x63u8, 0xebu8]@ =~= tail_argb());
        assert([0xffu8, 0xf5u8, 0x9eu8, 0x0bu8]@ =~= ray_argb());
    }
    TrayIcon { width: side, height: side, data }
}

} // verus!
