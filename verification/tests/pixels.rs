use autolon::indicator::{draw_glyph, draw_text, glyph, put_pixel};
use autolon::tray::{draw_line, put, tray_icon};

fn px(data: &[u8], width: usize, x: usize, y: usize) -> [u8; 4] {
    let o = (y * width + x) * 4;
    [data[o], data[o + 1], data[o + 2], data[o + 3]]
}

#[test]
fn tray_icon_pixels() {
    let icon = tray_icon(32);
    assert_eq!((icon.width, icon.height), (32, 32));
    assert_eq!(icon.data.len(), 32 * 32 * 4);
    assert_eq!(px(&icon.data, 32, 0, 0), [0xff, 0x11, 0x18, 0x27]);
    assert_eq!(px(&icon.data, 32, 7, 6), [0xff, 0xf5, 0x9e, 0x0b]);
    assert_eq!(px(&icon.data, 32, 13, 12), [0xff, 0xf8, 0xfa, 0xfc]);
    assert_eq!(px(&icon.data, 32, 20, 10), [0xff, 0xf8, 0xfa, 0xfc]);
    assert_eq!(px(&icon.data, 32, 30, 29), [0xff, 0x25, 0x63, 0xeb]);
    assert_eq!(px(&icon.data, 32, 31, 31), [0xff, 0x25, 0x63, 0xeb]);
    assert_eq!(px(&icon.data, 32, 16, 16), [0, 0, 0, 0]);
    assert_eq!(px(&icon.data, 32, 10, 20), [0, 0, 0, 0]);
    assert_eq!(icon.data.iter().map(|b| *b as u64).sum::<u64>(), 549_545);
}

#[test]
fn tray_icon_has_a_minimum_size() {
    let icon = tray_icon(8);
    assert_eq!((icon.width, icon.height), (16, 16));
    assert_eq!(icon.data.len(), 16 * 16 * 4);
    assert_eq!(icon.data.iter().map(|b| *b as u64).sum::<u64>(), 156_344);
    let icon = tray_icon(22);
    assert_eq!(icon.data.iter().map(|b| *b as u64).sum::<u64>(), 290_821);
    assert_eq!(px(&icon.data, 22, 10, 20), [0xff, 0x11, 0x18, 0x27]);
}

#[test]
fn put_writes_inside_only() {
    let mut data = vec![0u8; 4 * 4 * 4];
    put(&mut data, 4, 1, 2, [1, 2, 3, 4]);
    assert_eq!(px(&data, 4, 1, 2), [1, 2, 3, 4]);
    put(&mut data, 4, 4, 0, [9, 9, 9, 9]);
    put(&mut data, 4, 0, 7, [9, 9, 9, 9]);
    assert_eq!(data.iter().map(|b| *b as u32).sum::<u32>(), 10);
}

#[test]
fn line_with_zero_radius() {
    let mut data = vec![0u8; 5 * 5 * 4];
    draw_line(&mut data, 5, (0, 0), (4, 4), [1, 1, 1, 1], 0);
    for i in 0..5 {
        assert_eq!(px(&data, 5, i, i), [1, 1, 1, 1]);
    }
    assert_eq!(px(&data, 5, 1, 0), [0, 0, 0, 0]);
    assert_eq!(data.iter().filter(|b| **b == 1).count(), 20);
}

#[test]
fn line_is_clipped_at_the_edges() {
    let mut data = vec![0u8; 3 * 3 * 4];
    draw_line(&mut data, 3, (-2, 1), (5, 1), [7, 7, 7, 7], 0);
    for x in 0..3 {
        assert_eq!(px(&data, 3, x, 1), [7, 7, 7, 7]);
    }
    assert_eq!(px(&data, 3, 0, 0), [0, 0, 0, 0]);
}

#[test]
fn pixels_are_premultiplied() {
    let mut canvas = vec![0u8; 4 * 2 * 4];
    put_pixel(&mut canvas, 4, 1, 1, [200, 100, 50], 255);
    assert_eq!(px(&canvas, 4, 1, 1), [50, 100, 200, 255]);
    put_pixel(&mut canvas, 4, 2, 0, [200, 100, 50], 128);
    assert_eq!(px(&canvas, 4, 2, 0), [25, 50, 100, 128]);
    let before = canvas.clone();
    put_pixel(&mut canvas, 4, 0, 5, [1, 1, 1], 1);
    assert_eq!(canvas, before);
}

#[test]
fn digit_glyphs() {
    assert_eq!(glyph('5'), Some([7, 4, 7, 1, 7]));
    assert_eq!(glyph('1'), Some([2, 6, 2, 2, 7]));
    assert_eq!(glyph('x'), None);
}

#[test]
fn glyph_cells_are_two_pixels_square() {
    let mut canvas = vec![0u8; 8 * 12 * 4];
    draw_glyph(&mut canvas, 8, 12, glyph('1').unwrap(), 0, 0, [255, 255, 255], 255);
    assert_eq!(px(&canvas, 8, 0, 0), [0, 0, 0, 0]);
    assert_eq!(px(&canvas, 8, 2, 0), [255, 255, 255, 255]);
    assert_eq!(px(&canvas, 8, 3, 1), [255, 255, 255, 255]);
    assert_eq!(px(&canvas, 8, 0, 2), [255, 255, 255, 255]);
    assert_eq!(px(&canvas, 8, 4, 2), [0, 0, 0, 0]);
    let lit = canvas.chunks(4).filter(|p| p[3] == 255).count();
    assert_eq!(lit, 8 * 4);
}

#[test]
fn glyphs_are_clipped() {
    let mut canvas = vec![0u8; 4 * 4 * 4];
    draw_glyph(&mut canvas, 4, 4, glyph('8').unwrap(), -2, -2, [10, 20, 30], 255);
    assert_eq!(px(&canvas, 4, 0, 0), [0, 0, 0, 0]);
    assert_eq!(px(&canvas, 4, 1, 1), [0, 0, 0, 0]);
    assert_eq!(px(&canvas, 4, 2, 0), [30, 20, 10, 255]);
    assert_eq!(px(&canvas, 4, 0, 2), [30, 20, 10, 255]);
    assert_eq!(px(&canvas, 4, 3, 3), [30, 20, 10, 255]);
}

#[test]
fn text_skips_characters_without_glyphs() {
    let mut a = vec![0u8; 24 * 12 * 4];
    draw_text(&mut a, 24, 12, "1x0", 0, 0, [9, 9, 9], 255);
    let mut b = vec![0u8; 24 * 12 * 4];
    draw_glyph(&mut b, 24, 12, glyph('1').unwrap(), 0, 0, [9, 9, 9], 255);
    draw_glyph(&mut b, 24, 12, glyph('0').unwrap(), 8, 0, [9, 9, 9], 255);
    assert_eq!(a, b);
    assert_eq!(px(&a, 24, 8, 0), [9, 9, 9, 255]);
}
