//! Pixel buffers of four bytes per pixel, rows of `width` pixels: what it
//! means to paint a set of pixels with one colour.

use vstd::prelude::*;
use vstd::arithmetic::div_mod::{lemma_fundamental_div_mod, lemma_fundamental_div_mod_converse};

verus! {

/// The pixel that byte `i` of a buffer belongs to, as (column, row).
pub open spec fn pixel_of(width: int, i: int) -> (int, int) {
    ((i / 4) % width, (i / 4) / width)
}

/// `canvas` with every whole pixel whose (column, row) satisfies `cov` set to
/// the four bytes `px`; a pixel that the buffer does not hold in full is left
/// alone.
pub open spec fn painted(canvas: Seq<u8>, width: int, cov: spec_fn(int, int) -> bool, px: Seq<u8>) -> Seq<u8> {
    Seq::new(canvas.len(), |i: int| {
        let p = pixel_of(width, i);
        if width > 0 && cov(p.0, p.1) && (i / 4) * 4 + 3 < canvas.len() {
            px[i % 4]
        } else {
            canvas[i]
        }
    })
}

/// Painting with no pixels changes nothing.
pub proof fn lemma_painted_none(canvas: Seq<u8>, width: int, cov: spec_fn(int, int) -> bool, px: Seq<u8>)
    requires
        forall|a: int, b: int| !#[trigger] cov(a, b),
    ensures
        painted(canvas, width, cov, px) == canvas,
{
    assert(painted(canvas, width, cov, px) =~= canvas);
}

/// Painting one set of pixels and then another, with the same colour, paints
/// their union.
pub proof fn lemma_painted_union(canvas: Seq<u8>, width: int, f: spec_fn(int, int) -> bool, g: spec_fn(int, int) -> bool, h: spec_fn(int, int) -> bool, px: Seq<u8>)
    requires
        forall|a: int, b: int| #[trigger] h(a, b) == (f(a, b) || g(a, b)),
    ensures
        painted(painted(canvas, width, f, px), width, g, px) == painted(canvas, width, h, px),
{
    let p1 = painted(canvas, width, f, px);
    assert forall|i: int| 0 <= i < canvas.len() implies
        #[trigger] painted(p1, width, g, px)[i] == painted(canvas, width, h, px)[i] by {
        let p = pixel_of(width, i);
        assert(h(p.0, p.1) == (f(p.0, p.1) || g(p.0, p.1)));
    }
    assert(painted(p1, width, g, px) =~= painted(canvas, width, h, px));
}

/// Painting depends only on which pixels are chosen.
pub proof fn lemma_painted_same_cov(canvas: Seq<u8>, width: int, f: spec_fn(int, int) -> bool, g: spec_fn(int, int) -> bool, px: Seq<u8>)
    requires
        forall|a: int, b: int| #[trigger] f(a, b) == g(a, b),
    ensures
        painted(canvas, width, f, px) == painted(canvas, width, g, px),
{
    assert forall|i: int| 0 <= i < canvas.len() implies
        #[trigger] painted(canvas, width, f, px)[i] == painted(canvas, width, g, px)[i] by {
        let p = pixel_of(width, i);
        assert(f(p.0, p.1) == g(p.0, p.1));
    }
    assert(painted(canvas, width, f, px) =~= painted(canvas, width, g, px));
}

/// Writing the four bytes of pixel (x, y) paints exactly that pixel.
pub proof fn lemma_write_pixel(canvas: Seq<u8>, width: int, x: int, y: int, px: Seq<u8>)
    requires
        0 <= x < width,
        0 <= y,
        px.len() == 4,
        (y * width + x) * 4 + 3 < canvas.len(),
    ensures
        ({
            let o = (y * width + x) * 4;
            canvas.update(o, px[0]).update(o + 1, px[1]).update(o + 2, px[2]).update(o + 3, px[3])
        }) == painted(canvas, width, |a: int, b: int| a == x && b == y, px),
{
    let o = (y * width + x) * 4;
    let w = canvas.update(o, px[0]).update(o + 1, px[1]).update(o + 2, px[2]).update(o + 3, px[3]);
    let cov = |a: int, b: int| a == x && b == y;
    let q = y * width + x;
    lemma_fundamental_div_mod_converse(q, width, y, x);
    assert forall|i: int| 0 <= i < canvas.len() implies #[trigger] w[i] == painted(canvas, width, cov, px)[i] by {
        let p = i / 4;
        lemma_fundamental_div_mod_converse(i, 4, p, i % 4);
        if o <= i <= o + 3 {
            lemma_fundamental_div_mod_converse(i, 4, q, i - o);
        } else {
            if p == q {
                assert(i == 4 * q + i % 4);
                assert(false);
            }
            if width > 0 && p % width == x && p / width == y {
                lemma_fundamental_div_mod(p, width);
                let pw = p / width;
                let pm = p % width;
                assert(p == q) by (nonlinear_arith)
                    requires
                        p == width * pw + pm,
                        pw == y,
                        pm == x,
                        q == y * width + x,
                ;
            }
        }
    }
    assert(w =~= painted(canvas, width, cov, px));
}

} // verus!
