//! The global cursor indicator: what it shows for a clicker state, and the
//! integer pixel routines that draw its digits.

use vstd::prelude::*;
use crate::canvas::{painted, lemma_painted_union, lemma_painted_same_cov, lemma_write_pixel, lemma_painted_none};
use crate::clicker::ClickerState;
use crate::config::{Config, is_slot_id, is_default_config};
use crate::text::{chars_of, str_eq};

verus! {

/// The colour family of the indicator ring and digits.
#[derive(Debug, Clone, Copy, PartialEq, Eq, Structural)]
pub enum Tint {
    /// The slot named "Slow".
    Slow,
    /// The slot named "Fast".
    Fast,
    /// Any other running slot.
    Other,
}

/// The tint of a running slot with the given name.
pub open spec fn tint_of(name: Seq<char>) -> Tint {
    if name == "Slow"@ {
        Tint::Slow
    } else if name == "Fast"@ {
        Tint::Fast
    } else {
        Tint::Other
    }
}

/// The tint for a running slot's name.
pub fn slot_tint(name: &str) -> (t: Tint)
    ensures
        t == tint_of(name@),
{
    if str_eq(name, "Slow") {
        Tint::Slow
    } else if str_eq(name, "Fast") {
        Tint::Fast
    } else {
        Tint::Other
    }
}

/// What the indicator shows, and where the pointer was last seen.
#[derive(Debug, Clone)]
pub struct IndicatorState {
    pub running: bool,
    pub slot_id: u8,
    pub slot_name: String,
    pub interval_ms: u64,
    /// `None` while stopped (drawn black).
    pub tint: Option<Tint>,
    pub overlay_enabled: bool,
    pub cursor_x: i32,
    pub cursor_y: i32,
    pub cursor_updated_unix_ms: u64,
}

/// The indicator of a stopped clicker, with the overlay off and no pointer
/// position yet.
pub open spec fn is_initial_indicator(s: IndicatorState) -> bool {
    &&& !s.running
    &&& s.slot_id == 0
    &&& s.slot_name@ == Seq::<char>::empty()
    &&& s.interval_ms == 0
    &&& s.tint is None
    &&& !s.overlay_enabled
    &&& s.cursor_x == 0
    &&& s.cursor_y == 0
    &&& s.cursor_updated_unix_ms == 0
}

impl Default for IndicatorState {
    fn default() -> (s: Self)
        ensures
            is_initial_indicator(s),
    {
        IndicatorState {
            running: false,
            slot_id: 0,
            slot_name: String::new(),
            interval_ms: 0,
            tint: None,
            overlay_enabled: false,
            cursor_x: 0,
            cursor_y: 0,
            cursor_updated_unix_ms: 0,
        }
    }
}

/// The name the indicator gives the running slot `slot_id`: its configured
/// name, or "User" for an id that names no slot.
pub open spec fn shown_slot_name(c: Config, slot_id: u8) -> Seq<char> {
    if is_slot_id(slot_id) {
        c.spec_slot(slot_id).name@
    } else {
        "User"@
    }
}

/// How the indicator follows the clicker: the overlay switch is taken from
/// the configuration and the pointer position is kept; a running clicker
/// shows its slot, name, interval and tint; a stopped one shows nothing.
pub open spec fn followed(old_s: IndicatorState, new_s: IndicatorState, c: Config, clicker: ClickerState) -> bool {
    &&& new_s.overlay_enabled == c.display_global_mouse_overlay
    &&& new_s.cursor_x == old_s.cursor_x
    &&& new_s.cursor_y == old_s.cursor_y
    &&& new_s.cursor_updated_unix_ms == old_s.cursor_updated_unix_ms
    &&& match clicker {
        ClickerState::Running { slot_id, interval_ms, .. } => {
            &&& new_s.running
            &&& new_s.slot_id == slot_id
            &&& new_s.slot_name@ == shown_slot_name(c, slot_id)
            &&& new_s.interval_ms == interval_ms
            &&& new_s.tint == Some(tint_of(shown_slot_name(c, slot_id)))
        },
        ClickerState::Stopped => {
            &&& !new_s.running
            &&& new_s.slot_id == 0
            &&& new_s.slot_name@ == Seq::<char>::empty()
            &&& new_s.interval_ms == 0
            &&& new_s.tint is None
        },
    }
}

impl IndicatorState {
    /// Brings the indicator up to date with a clicker state reported by the
    /// daemon, under the configuration `config`.
    pub fn update(&mut self, config: &Config, clicker: &ClickerState)
        ensures
            followed(*old(self), *final(self), *config, *clicker),
    {
        self.overlay_enabled = config.display_global_mouse_overlay;
        match *clicker {
            ClickerState::Running { slot_id, interval_ms, .. } => {
                let name = match config.slot(slot_id) {
                    Ok(slot) => slot.name.clone(),
                    Err(_) => String::from_str("User"),
                };
                proof {
                    reveal_strlit("User");
                }
                let tint = slot_tint(name.as_str());
                self.running = true;
                self.slot_id = slot_id;
                self.slot_name = name;
                self.interval_ms = interval_ms;
                self.tint = Some(tint);
            },
            ClickerState::Stopped => {
                self.running = false;
                self.slot_id = 0;
                self.slot_name = String::new();
                self.interval_ms = 0;
                self.tint = None;
            },
        }
    }

    /// Records the pointer position reported at `now_unix_ms`.
    pub fn update_cursor(&mut self, x: i32, y: i32, now_unix_ms: u64)
        ensures
            *final(self) == (IndicatorState {
                cursor_x: x,
                cursor_y: y,
                cursor_updated_unix_ms: now_unix_ms,
                ..*old(self)
            }),
    {
        self.cursor_x = x;
        self.cursor_y = y;
        self.cursor_updated_unix_ms = now_unix_ms;
    }

    /// Whether the overlay draws anything: it is switched on, the clicker
    /// runs, and the pointer position has been reported at least once.
    pub fn drawable(&self) -> (r: bool)
        ensures
            r == (self.overlay_enabled && self.running && self.cursor_updated_unix_ms != 0),
    {
        self.overlay_enabled && self.running && self.cursor_updated_unix_ms != 0
    }
}

/// With the configuration written on first start the overlay stays off:
/// whatever the clicker does, the indicator draws nothing.
pub proof fn law_overlay_off_by_default(before: IndicatorState, after: IndicatorState, c: Config, clicker: ClickerState)
    requires
        is_default_config(c),
        followed(before, after, c, clicker),
    ensures
        !(after.overlay_enabled && after.running && after.cursor_updated_unix_ms != 0),
{
}

/// What to do with the KDE script that reports the pointer position.
#[derive(Debug, Clone, Copy, PartialEq, Eq, Structural)]
pub enum BridgeAction {
    Load,
    Unload,
    Keep,
}

/// The script is loaded when the overlay is switched on and it is not loaded
/// yet, unloaded when the overlay is off and it is loaded, and otherwise left.
pub fn bridge_action(overlay_enabled: bool, loaded: bool) -> (a: BridgeAction)
    ensures
        a == (if overlay_enabled && !loaded {
            BridgeAction::Load
        } else if !overlay_enabled && loaded {
            BridgeAction::Unload
        } else {
            BridgeAction::Keep
        }),
{
    if overlay_enabled && !loaded {
        BridgeAction::Load
    } else if !overlay_enabled && loaded {
        BridgeAction::Unload
    } else {
        BridgeAction::Keep
    }
}

/// The four bytes that `put_pixel` writes: blue, green and red premultiplied
/// by alpha, then alpha (a little-endian ARGB word).
pub open spec fn pixel_bytes(color: Seq<u8>, alpha: u8) -> Seq<u8> {
    seq![
        (color[2] * alpha / 255) as u8,
        (color[1] * alpha / 255) as u8,
        (color[0] * alpha / 255) as u8,
        alpha,
    ]
}

/// The byte offset of pixel (x, y) in rows of `width` pixels.
pub open spec fn pixel_offset(width: int, x: int, y: int) -> int {
    (y * width + x) * 4
}

/// Writes pixel (x, y) in `color` with `alpha`, premultiplied; a pixel that
/// the buffer does not hold in full is left alone.
pub fn put_pixel(canvas: &mut [u8], width: u32, x: i32, y: i32, color: [u8; 3], alpha: u8)
    requires
        x >= 0,
        y >= 0,
        pixel_offset(width as int, x as int, y as int) + 3 <= u32::MAX,
    ensures
        ({
            let o = pixel_offset(width as int, x as int, y as int);
            let px = pixel_bytes(color@, alpha);
            final(canvas)@ == if o + 3 >= old(canvas)@.len() {
                old(canvas)@
            } else {
                old(canvas)@.update(o, px[0]).update(o + 1, px[1]).update(o + 2, px[2]).update(o + 3, px[3])
            }
        }),
{
    proof {
        assert((y as int) * (width as int) <= (y as int) * (width as int) + (x as int));
        assert(0 <= (y as int) * (width as int)) by (nonlinear_arith)
            requires y >= 0;
    }
    let offset = ((y as u32 * width + x as u32) * 4) as usize;
    if offset + 3 >= canvas.len() {
        return;
    }
    let a = alpha as u32;
    proof {
        assert((color[0] as u32) * a <= 255 * 255) by (nonlinear_arith)
            requires color[0] <= 255, a <= 255;
        assert((color[1] as u32) * a <= 255 * 255) by (nonlinear_arith)
            requires color[1] <= 255, a <= 255;
        assert((color[2] as u32) * a <= 255 * 255) by (nonlinear_arith)
            requires color[2] <= 255, a <= 255;
    }
    let r = color[0] as u32 * a / 255;
    let g = color[1] as u32 * a / 255;
    let b = color[2] as u32 * a / 255;
    canvas[offset] = b as u8;
    canvas[offset + 1] = g as u8;
    canvas[offset + 2] = r as u8;
    canvas[offset + 3] = alpha;
}

/// The rows of a digit's 3 x 5 glyph, top to bottom; bit 2 of a row is its
/// left column and bit 0 its right one. Characters other than digits have
/// no glyph.
pub open spec fn glyph_rows(ch: char) -> Option<Seq<u8>> {
    if ch == '0' { Some(seq![7u8, 5, 5, 5, 7]) }
    else if ch == '1' { Some(seq![2u8, 6, 2, 2, 7]) }
    else if ch == '2' { Some(seq![7u8, 1, 7, 4, 7]) }
    else if ch == '3' { Some(seq![7u8, 1, 7, 1, 7]) }
    else if ch == '4' { Some(seq![5u8, 5, 7, 1, 1]) }
    else if ch == '5' { Some(seq![7u8, 4, 7, 1, 7]) }
    else if ch == '6' { Some(seq![7u8, 4, 7, 5, 7]) }
    else if ch == '7' { Some(seq![7u8, 1, 2, 2, 2]) }
    else if ch == '8' { Some(seq![7u8, 5, 7, 5, 7]) }
    else if ch == '9' { Some(seq![7u8, 5, 7, 1, 7]) }
    else { None }
}

/// Whether `ch` is a decimal digit.
pub open spec fn is_digit(ch: char) -> bool {
    '0' <= ch <= '9'
}

/// Exactly the ten digits have glyphs, different digits have different
/// glyphs (so every interval reads back as the number it is), and the 0 is
/// hollow: the middle cell of rows 1 to 3 is dark while the rest of its
/// outline is lit.
pub proof fn law_digit_glyphs_are_distinct(a: char, b: char)
    ensures
        glyph_rows(a) is Some <==> is_digit(a),
        is_digit(a) && is_digit(b) && a != b ==> glyph_rows(a) != glyph_rows(b),
        ({
            let z = glyph_rows('0')->Some_0;
            &&& z.len() == 5
            &&& !cell_lit(z[1], 1) && !cell_lit(z[2], 1) && !cell_lit(z[3], 1)
            &&& forall|r: int| 1 <= r <= 3 ==> cell_lit(#[trigger] z[r], 0) && cell_lit(z[r], 2)
            &&& forall|c: int| 0 <= c <= 2 ==> cell_lit(z[0], c) && cell_lit(z[4], c)
        }),
{
    let g = |c: char| glyph_rows(c)->Some_0;
    assert(g('0') =~= seq![7u8, 5, 5, 5, 7]);
    assert(g('1') =~= seq![2u8, 6, 2, 2, 7]);
    assert(g('2') =~= seq![7u8, 1, 7, 4, 7]);
    assert(g('3') =~= seq![7u8, 1, 7, 1, 7]);
    assert(g('4') =~= seq![5u8, 5, 7, 1, 1]);
    assert(g('5') =~= seq![7u8, 4, 7, 1, 7]);
    assert(g('6') =~= seq![7u8, 4, 7, 5, 7]);
    assert(g('7') =~= seq![7u8, 1, 2, 2, 2]);
    assert(g('8') =~= seq![7u8, 5, 7, 5, 7]);
    assert(g('9') =~= seq![7u8, 5, 7, 1, 7]);
    if is_digit(a) && is_digit(b) && a != b {
        let ga = g(a);
        let gb = g(b);
        if ga == gb {
            assert(ga[0] == gb[0] && ga[1] == gb[1] && ga[2] == gb[2] && ga[3] == gb[3] && ga[4] == gb[4]);
        }
    }
}

/// The glyph of a digit.
pub fn glyph(ch: char) -> (g: Option<[u8; 5]>)
    ensures
        match glyph_rows(ch) {
            Some(rows) => g matches Some(a) && a@ == rows,
            None => g is None,
        },
{
    let g: Option<[u8; 5]> = match ch {
        '0' => Some([7, 5, 5, 5, 7]),
        '1' => Some([2, 6, 2, 2, 7]),
        '2' => Some([7, 1, 7, 4, 7]),
        '3' => Some([7, 1, 7, 1, 7]),
        '4' => Some([5, 5, 7, 1, 1]),
        '5' => Some([7, 4, 7, 1, 7]),
        '6' => Some([7, 4, 7, 5, 7]),
        '7' => Some([7, 1, 2, 2, 2]),
        '8' => Some([7, 5, 7, 5, 7]),
        '9' => Some([7, 5, 7, 1, 7]),
        _ => None,
    };
    proof {
        if let Some(a) = g {
            assert(a@ =~= glyph_rows(ch)->Some_0);
        }
    }
    g
}

/// Whether column `c` (0 = left) of a glyph row is lit.
pub open spec fn cell_lit(row: u8, c: int) -> bool {
    if c == 0 { (row / 4) % 2 == 1 } else if c == 1 { (row / 2) % 2 == 1 } else { row % 2 == 1 }
}

/// The pixels of a `width` x `height` buffer that a glyph drawn at (x, y)
/// covers: each lit cell is a 2 x 2 block.
pub open spec fn glyph_cov(rows: Seq<u8>, x: int, y: int, width: int, height: int) -> spec_fn(int, int) -> bool {
    |a: int, b: int| 0 <= a < width && 0 <= b < height
        && exists|r: int, c: int| 0 <= r < 5 && 0 <= c < 3 && #[trigger] cell_lit(rows[r], c)
            && x + 2 * c <= a <= x + 2 * c + 1 && y + 2 * r <= b <= y + 2 * r + 1
}

/// Painting limits shared by the glyph routines: every pixel offset of the
/// buffer fits in a `u32`.
pub open spec fn size_ok(width: u32, height: u32) -> bool {
    (width as int) * (height as int) * 4 <= 0x1_0000_0000
}

proof fn lemma_pixel_in_buffer(width: u32, height: u32, x: int, y: int)
    requires
        size_ok(width, height),
        0 <= x < width,
        0 <= y < height,
    ensures
        pixel_offset(width as int, x, y) + 3 <= u32::MAX,
        width <= 0x4000_0000,
{
    assert(pixel_offset(width as int, x, y) + 3 <= u32::MAX) by (nonlinear_arith)
        requires
            (width as int) * (height as int) * 4 <= 0x1_0000_0000,
            0 <= x < width,
            0 <= y < height,
    ;
    assert(width <= 0x4000_0000) by (nonlinear_arith)
        requires
            (width as int) * (height as int) * 4 <= 0x1_0000_0000,
            0 <= y < height,
    ;
}

/// Paints one pixel at (px, py) when it lies in the buffer.
fn put_clipped(canvas: &mut [u8], width: u32, height: u32, px: i32, py: i32, color: [u8; 3], alpha: u8)
    requires
        size_ok(width, height),
    ensures
        final(canvas)@ == painted(old(canvas)@, width as int,
            |a: int, b: int| a == px && b == py && 0 <= a < width && 0 <= b < height, pixel_bytes(color@, alpha)),
{
    let ghost before = canvas@;
    let ghost cov = |a: int, b: int| a == px && b == py && 0 <= a < width && 0 <= b < height;
    if px >= 0 && py >= 0 && (px as i64) < (width as i64) && (py as i64) < (height as i64) {
        proof {
            lemma_pixel_in_buffer(width, height, px as int, py as int);
        }
        put_pixel(canvas, width, px, py, color, alpha);
        proof {
            let o = pixel_offset(width as int, px as int, py as int);
            if o + 3 < before.len() {
                lemma_write_pixel(before, width as int, px as int, py as int, pixel_bytes(color@, alpha));
                lemma_painted_same_cov(before, width as int, |a: int, b: int| a == px && b == py, cov, pixel_bytes(color@, alpha));
            } else {
                let pb = pixel_bytes(color@, alpha);
                assert(painted(before, width as int, cov, pb) =~= before) by {
                    assert forall|i: int| 0 <= i < before.len() implies painted(before, width as int, cov, pb)[i] == before[i] by {
                        let p = (i / 4);
                        if cov(p % (width as int), p / (width as int)) && p * 4 + 3 < before.len() {
                            vstd::arithmetic::div_mod::lemma_fundamental_div_mod(p, width as int);
                            assert(p == (py as int) * (width as int) + (px as int)) by (nonlinear_arith)
                                requires
                                    p == (width as int) * (p / (width as int)) + p % (width as int),
                                    p / (width as int) == py,
                                    p % (width as int) == px,
                            ;
                        }
                    }
                }
            }
        }
    } else {
        proof {
            lemma_painted_none(before, width as int, cov, pixel_bytes(color@, alpha));
        }
    }
}

fn lit(row: u8, c: usize) -> (r: bool)
    requires
        c < 3,
    ensures
        r == cell_lit(row, c as int),
{
    if c == 0 {
        (row / 4) % 2 == 1
    } else if c == 1 {
        (row / 2) % 2 == 1
    } else {
        row % 2 == 1
    }
}

/// The cells of a glyph before cell (r, c) in row-major order that are lit,
/// as pixels.
pub open spec fn glyph_cov_before(rows: Seq<u8>, x: int, y: int, width: int, height: int, r0: int, c0: int) -> spec_fn(int, int) -> bool {
    |a: int, b: int| 0 <= a < width && 0 <= b < height
        && exists|r: int, c: int| 0 <= r < 5 && 0 <= c < 3 && (r < r0 || (r == r0 && c < c0)) && #[trigger] cell_lit(rows[r], c)
            && x + 2 * c <= a <= x + 2 * c + 1 && y + 2 * r <= b <= y + 2 * r + 1
}

/// Draws a digit glyph with its top-left corner at (x, y), each cell a 2 x 2
/// block of pixels, clipped to the `width` x `height` buffer.
pub fn draw_glyph(canvas: &mut [u8], width: u32, height: u32, glyph: [u8; 5], x: i32, y: i32, color: [u8; 3], alpha: u8)
    requires
        size_ok(width, height),
        x <= i32::MAX - 5,
        y <= i32::MAX - 9,
    ensures
        final(canvas)@ == painted(old(canvas)@, width as int,
            glyph_cov(glyph@, x as int, y as int, width as int, height as int), pixel_bytes(color@, alpha)),
{
    let ghost orig = canvas@;
    let ghost w = width as int;
    let ghost hh = height as int;
    let ghost pb = pixel_bytes(color@, alpha);
    let ghost rows = glyph@;
    proof {
        lemma_painted_none(orig, w, glyph_cov_before(rows, x as int, y as int, w, hh, 0, 0), pb);
    }
    let mut row: usize = 0;
    while row < 5
        invariant
            0 <= row <= 5,
            size_ok(width, height),
            x <= i32::MAX - 5,
            y <= i32::MAX - 9,
            w == width as int,
            hh == height as int,
            pb == pixel_bytes(color@, alpha),
            rows == glyph@,
            canvas@ == painted(orig, w, glyph_cov_before(rows, x as int, y as int, w, hh, row as int, 0), pb),
        decreases 5 - row,
    {
        let mut col: usize = 0;
        while col < 3
            invariant
                0 <= row < 5,
                0 <= col <= 3,
                size_ok(width, height),
                x <= i32::MAX - 5,
                y <= i32::MAX - 9,
                w == width as int,
                hh == height as int,
                pb == pixel_bytes(color@, alpha),
                rows == glyph@,
                canvas@ == painted(orig, w, glyph_cov_before(rows, x as int, y as int, w, hh, row as int, col as int), pb),
            decreases 3 - col,
        {
            let ghost f = glyph_cov_before(rows, x as int, y as int, w, hh, row as int, col as int);
            let ghost h = glyph_cov_before(rows, x as int, y as int, w, hh, row as int, col + 1);
            if lit(glyph[row], col) {
                let px = x + (col as i32) * 2;
                let py = y + (row as i32) * 2;
                let ghost c0 = canvas@;
                put_clipped(canvas, width, height, px, py, color, alpha);
                put_clipped(canvas, width, height, px + 1, py, color, alpha);
                put_clipped(canvas, width, height, px, py + 1, color, alpha);
                put_clipped(canvas, width, height, px + 1, py + 1, color, alpha);
                proof {
                    let g1 = |a: int, b: int| a == px && b == py && 0 <= a < w && 0 <= b < hh;
                    let g2 = |a: int, b: int| a == px + 1 && b == py && 0 <= a < w && 0 <= b < hh;
                    let g3 = |a: int, b: int| a == px && b == py + 1 && 0 <= a < w && 0 <= b < hh;
                    let g4 = |a: int, b: int| a == px + 1 && b == py + 1 && 0 <= a < w && 0 <= b < hh;
                    let f1 = |a: int, b: int| f(a, b) || g1(a, b);
                    let f2 = |a: int, b: int| f1(a, b) || g2(a, b);
                    let f3 = |a: int, b: int| f2(a, b) || g3(a, b);
                    let f4 = |a: int, b: int| f3(a, b) || g4(a, b);
                    lemma_painted_union(orig, w, f, g1, f1, pb);
                    lemma_painted_union(orig, w, f1, g2, f2, pb);
                    lemma_painted_union(orig, w, f2, g3, f3, pb);
                    lemma_painted_union(orig, w, f3, g4, f4, pb);
                    assert forall|a: int, b: int| #[trigger] f4(a, b) == h(a, b) by {
                        if h(a, b) && !f(a, b) {
                            let (r, c) = choose|r: int, c: int| 0 <= r < 5 && 0 <= c < 3 && (r < row || (r == row && c < col + 1))
                                && #[trigger] cell_lit(rows[r], c)
                                && x + 2 * c <= a <= x + 2 * c + 1 && y + 2 * r <= b <= y + 2 * r + 1;
                            assert(r == row && c == col);
                        }
                        if f(a, b) {
                            let (r, c) = choose|r: int, c: int| 0 <= r < 5 && 0 <= c < 3 && (r < row || (r == row && c < col))
                                && #[trigger] cell_lit(rows[r], c)
                                && x + 2 * c <= a <= x + 2 * c + 1 && y + 2 * r <= b <= y + 2 * r + 1;
                            assert(cell_lit(rows[r], c));
                        }
                        if f4(a, b) && !f(a, b) {
                            assert(cell_lit(rows[row as int], col as int));
                        }
                    }
                    lemma_painted_same_cov(orig, w, f4, h, pb);
                }
            } else {
                proof {
                    assert forall|a: int, b: int| #[trigger] f(a, b) == h(a, b) by {
                        if h(a, b) {
                            let (r, c) = choose|r: int, c: int| 0 <= r < 5 && 0 <= c < 3 && (r < row || (r == row && c < col + 1))
                                && #[trigger] cell_lit(rows[r], c)
                                && x + 2 * c <= a <= x + 2 * c + 1 && y + 2 * r <= b <= y + 2 * r + 1;
                            assert(cell_lit(rows[r], c));
                        }
                        if f(a, b) {
                            let (r, c) = choose|r: int, c: int| 0 <= r < 5 && 0 <= c < 3 && (r < row || (r == row && c < col))
                                && #[trigger] cell_lit(rows[r], c)
                                && x + 2 * c <= a <= x + 2 * c + 1 && y + 2 * r <= b <= y + 2 * r + 1;
                            assert(cell_lit(rows[r], c));
                        }
                    }
                    lemma_painted_same_cov(orig, w, f, h, pb);
                }
            }
            col = col + 1;
        }
        proof {
            let f = glyph_cov_before(rows, x as int, y as int, w, hh, row as int, 3);
            let h = glyph_cov_before(rows, x as int, y as int, w, hh, row + 1, 0);
            assert forall|a: int, b: int| #[trigger] f(a, b) == h(a, b) by {
                if h(a, b) {
                    let (r, c) = choose|r: int, c: int| 0 <= r < 5 && 0 <= c < 3 && (r < row + 1 || (r == row + 1 && c < 0))
                        && #[trigger] cell_lit(rows[r], c)
                        && x + 2 * c <= a <= x + 2 * c + 1 && y + 2 * r <= b <= y + 2 * r + 1;
                    assert(cell_lit(rows[r], c));
                }
                if f(a, b) {
                    let (r, c) = choose|r: int, c: int| 0 <= r < 5 && 0 <= c < 3 && (r < row || (r == row && c < 3))
                        && #[trigger] cell_lit(rows[r], c)
                        && x + 2 * c <= a <= x + 2 * c + 1 && y + 2 * r <= b <= y + 2 * r + 1;
                    assert(cell_lit(rows[r], c));
                }
            }
            lemma_painted_same_cov(orig, w, f, h, pb);
        }
        row = row + 1;
    }
    proof {
        let f = glyph_cov_before(rows, x as int, y as int, w, hh, 5, 0);
        let h = glyph_cov(rows, x as int, y as int, w, hh);
        assert forall|a: int, b: int| #[trigger] f(a, b) == h(a, b) by {
            if h(a, b) {
                let (r, c) = choose|r: int, c: int| 0 <= r < 5 && 0 <= c < 3 && #[trigger] cell_lit(rows[r], c)
                    && x + 2 * c <= a <= x + 2 * c + 1 && y + 2 * r <= b <= y + 2 * r + 1;
                assert(cell_lit(rows[r], c));
            }
            if f(a, b) {
                let (r, c) = choose|r: int, c: int| 0 <= r < 5 && 0 <= c < 3 && (r < 5 || (r == 5 && c < 0))
                    && #[trigger] cell_lit(rows[r], c)
                    && x + 2 * c <= a <= x + 2 * c + 1 && y + 2 * r <= b <= y + 2 * r + 1;
                assert(cell_lit(rows[r], c));
            }
        }
        lemma_painted_same_cov(orig, w, f, h, pb);
    }
}

/// How many of the first `k` characters of `chars` have a glyph.
pub open spec fn glyphs_before(chars: Seq<char>, k: int) -> int
    decreases k,
{
    if k <= 0 {
        0
    } else {
        glyphs_before(chars, k - 1) + if glyph_rows(chars[k - 1]) is Some { 1int } else { 0int }
    }
}

/// The pixels that the digits among the first `k` characters cover, each
/// digit 8 pixels right of the previous one.
pub open spec fn text_cov_before(chars: Seq<char>, k: int, x: int, y: int, width: int, height: int) -> spec_fn(int, int) -> bool {
    |a: int, b: int| exists|q: int| 0 <= q < k && #[trigger] glyph_rows(chars[q]) is Some
        && glyph_cov(glyph_rows(chars[q])->Some_0, x + 8 * glyphs_before(chars, q), y, width, height)(a, b)
}

proof fn lemma_glyphs_before_bounds(chars: Seq<char>, k: int)
    requires
        0 <= k,
    ensures
        0 <= glyphs_before(chars, k) <= k,
    decreases k,
{
    if k > 0 {
        lemma_glyphs_before_bounds(chars, k - 1);
    }
}

/// Draws the digits of `text` from (x, y) rightwards, 8 pixels apart;
/// characters without a glyph are skipped without taking room.
pub fn draw_text(canvas: &mut [u8], width: u32, height: u32, text: &str, x: i32, y: i32, color: [u8; 3], alpha: u8)
    requires
        size_ok(width, height),
        x as int + 8 * text@.len() + 5 <= i32::MAX,
        y <= i32::MAX - 9,
    ensures
        final(canvas)@ == painted(old(canvas)@, width as int,
            text_cov_before(text@, text@.len() as int, x as int, y as int, width as int, height as int),
            pixel_bytes(color@, alpha)),
{
    let chars = chars_of(text);
    let ghost orig = canvas@;
    let ghost w = width as int;
    let ghost hh = height as int;
    let ghost pb = pixel_bytes(color@, alpha);
    let ghost cs = chars@;
    let mut cursor: i32 = x;
    let mut k: usize = 0;
    proof {
        lemma_painted_none(orig, w, text_cov_before(cs, 0, x as int, y as int, w, hh), pb);
    }
    while k < chars.len()
        invariant
            0 <= k <= chars.len(),
            cs == chars@,
            cs == text@,
            size_ok(width, height),
            x as int + 8 * text@.len() + 5 <= i32::MAX,
            y <= i32::MAX - 9,
            w == width as int,
            hh == height as int,
            pb == pixel_bytes(color@, alpha),
            cursor == x + 8 * glyphs_before(cs, k as int),
            canvas@ == painted(orig, w, text_cov_before(cs, k as int, x as int, y as int, w, hh), pb),
        decreases chars.len() - k,
    {
        proof {
            lemma_glyphs_before_bounds(cs, k as int);
        }
        let ghost f = text_cov_before(cs, k as int, x as int, y as int, w, hh);
        let ghost h = text_cov_before(cs, k + 1, x as int, y as int, w, hh);
        match glyph(chars[k]) {
            Some(g) => {
                draw_glyph(canvas, width, height, g, cursor, y, color, alpha);
                proof {
                    let gc = glyph_cov(g@, cursor as int, y as int, w, hh);
                    let u = |a: int, b: int| f(a, b) || gc(a, b);
                    lemma_painted_union(orig, w, f, gc, u, pb);
                    assert forall|a: int, b: int| #[trigger] u(a, b) == h(a, b) by {
                        if h(a, b) {
                            let q = choose|q: int| 0 <= q < k + 1 && #[trigger] glyph_rows(cs[q]) is Some
                                && glyph_cov(glyph_rows(cs[q])->Some_0, x + 8 * glyphs_before(cs, q), y as int, w, hh)(a, b);
                            if q < k {
                                assert(f(a, b));
                            }
                        }
                        if f(a, b) {
                            let q = choose|q: int| 0 <= q < k && #[trigger] glyph_rows(cs[q]) is Some
                                && glyph_cov(glyph_rows(cs[q])->Some_0, x + 8 * glyphs_before(cs, q), y as int, w, hh)(a, b);
                            assert(glyph_rows(cs[q]) is Some);
                        }
                        if gc(a, b) {
                            assert(glyph_rows(cs[k as int]) is Some);
                        }
                    }
                    lemma_painted_same_cov(orig, w, u, h, pb);
                }
                cursor = cursor + 8;
            },
            None => {
                proof {
                    assert forall|a: int, b: int| #[trigger] f(a, b) == h(a, b) by {
                        if h(a, b) {
                            let q = choose|q: int| 0 <= q < k + 1 && #[trigger] glyph_rows(cs[q]) is Some
                                && glyph_cov(glyph_rows(cs[q])->Some_0, x + 8 * glyphs_before(cs, q), y as int, w, hh)(a, b);
                            assert(glyph_rows(cs[q]) is Some);
                        }
                        if f(a, b) {
                            let q = choose|q: int| 0 <= q < k && #[trigger] glyph_rows(cs[q]) is Some
                                && glyph_cov(glyph_rows(cs[q])->Some_0, x + 8 * glyphs_before(cs, q), y as int, w, hh)(a, b);
                            assert(glyph_rows(cs[q]) is Some);
                        }
                    }
                    lemma_painted_same_cov(orig, w, f, h, pb);
                }
            },
        }
        k = k + 1;
    }
}

} // verus!
