use epl_label::{
    image_to_gw, image_to_row_bytes, line_height, overlay, pack_rows, paint_line, rasterize_line,
    render_arabic_line_tight_1bit, render_name_price_space_between, rotate90, tight_width, Bitmap,
    Glyph, GlyphRun, Stroke,
};

fn solid(min_x: i32, min_y: i32, w: i32, h: i32) -> Glyph {
    Glyph { min_x, min_y, max_x: min_x + w, max_y: min_y + h, ink: vec![true; (w * h) as usize] }
}

fn run(glyphs: Vec<Glyph>) -> GlyphRun {
    GlyphRun { ascent: 20, descent: -5, glyphs }
}

#[test]
fn nine_pixel_row_packs_into_two_bytes() {
    let mut row = vec![true; 8];
    row.push(false);
    let img = Bitmap { width: 9, height: 1, rows: vec![row] };
    assert_eq!(pack_rows(&img, false), vec![0xFF, 0x00]);
    assert_eq!(pack_rows(&img, true), vec![0x00, 0xFF]);
    assert_eq!(image_to_row_bytes(&img), (9, 1, vec![0x00, 0xFF]));
}

#[test]
fn leftmost_pixel_is_the_high_bit() {
    let img = Bitmap {
        width: 10,
        height: 2,
        rows: vec![
            vec![true, false, false, false, false, false, false, true, false, true],
            vec![false, true, false, false, false, false, false, false, true, false],
        ],
    };
    assert_eq!(pack_rows(&img, false), vec![0x81, 0x40, 0x40, 0x80]);
}

#[test]
fn tight_width_is_the_rightmost_box_edge() {
    let gs = vec![solid(0, 0, 30, 2), solid(10, 0, 5, 2)];
    assert_eq!(tight_width(&gs), 30);
    assert_eq!(tight_width(&vec![solid(0, 0, 10, 1), solid(1, 0, 2, 1)]), 10);
    assert_eq!(tight_width(&vec![]), 0);
    assert_eq!(tight_width(&vec![solid(-9, 0, 4, 1)]), 0);
}

#[test]
fn line_height_has_a_floor_of_thirty() {
    assert_eq!(line_height(&run(vec![])), 30);
    assert_eq!(line_height(&GlyphRun { ascent: 40, descent: -12, glyphs: vec![] }), 52);
}

#[test]
fn empty_line_is_two_pixels_wide() {
    let img = rasterize_line(&run(vec![]), 0, Stroke::Single);
    assert_eq!((img.width, img.height), (2, 30));
    assert!(img.rows.iter().all(|r| r.iter().all(|p| !p)));
}

#[test]
fn single_pass_paints_the_glyph_box_after_the_padding() {
    let img = rasterize_line(&run(vec![solid(0, 3, 2, 2)]), 1, Stroke::Single);
    assert_eq!((img.width, img.height), (4, 30));
    for y in 0..30usize {
        for x in 0..4usize {
            let want = (x == 1 || x == 2) && (y == 3 || y == 4);
            assert_eq!(img.rows[y][x], want, "pixel {} {}", x, y);
        }
    }
}

#[test]
fn bold_adds_a_pass_one_pixel_right() {
    let img = render_arabic_line_tight_1bit(&run(vec![solid(0, 0, 1, 1)]), 3);
    assert_eq!(img.width, 7);
    assert_eq!(img.rows[0], vec![false, false, false, true, true, false, false]);
}

#[test]
fn quad_stroke_also_paints_right_by_two_and_down_by_one() {
    let img = rasterize_line(&run(vec![solid(0, 0, 1, 1)]), 2, Stroke::Quad);
    assert_eq!(img.rows[0], vec![false, false, true, true, true]);
    assert_eq!(img.rows[1], vec![false, false, true, false, false]);
}

#[test]
fn ink_mask_is_read_row_by_row() {
    let g = Glyph { min_x: 0, min_y: 0, max_x: 2, max_y: 2, ink: vec![true, false, false, true] };
    let img = paint_line(2, 2, &vec![g], Stroke::Single, 0);
    assert_eq!(img.rows, vec![vec![true, false], vec![false, true]]);
}

#[test]
fn overlay_is_a_union() {
    let a = Bitmap { width: 2, height: 1, rows: vec![vec![true, false]] };
    let b = Bitmap { width: 2, height: 1, rows: vec![vec![false, false]] };
    assert_eq!(overlay(&a, &b).rows, vec![vec![true, false]]);
}

#[test]
fn rotation_is_clockwise() {
    let img = Bitmap { width: 3, height: 2, rows: vec![vec![true, false, false], vec![false, false, true]] };
    let r = rotate90(&img);
    assert_eq!((r.width, r.height), (2, 3));
    assert_eq!(r.rows, vec![vec![false, true], vec![false, false], vec![true, false]]);
}

#[test]
fn long_name_is_truncated_and_price_keeps_its_room() {
    let price = run(vec![solid(0, 0, 40, 4)]);
    let name = run(vec![solid(0, 0, 300, 4)]);
    let img = render_name_price_space_between(&name, &price, 100, false);
    assert_eq!(img.width, 100);
    assert_eq!(img.rows.len(), 30);
    // price at columns 5..45, gap up to 55, name from 55 on
    for x in 0..100usize {
        let want = (5..45).contains(&x) || x >= 55;
        assert_eq!(img.rows[0][x], want, "column {}", x);
    }
}

#[test]
fn short_name_is_right_aligned() {
    let price = run(vec![solid(0, 0, 10, 1)]);
    let name = run(vec![solid(0, 0, 20, 1)]);
    let img = render_name_price_space_between(&name, &price, 100, true);
    for x in 0..100usize {
        let want = (5..16).contains(&x) || x >= 80;
        assert_eq!(img.rows[0][x], want, "column {}", x);
    }
}

#[test]
fn stand_alone_image_block_is_inverted_for_the_printer() {
    let img = Bitmap { width: 3, height: 1, rows: vec![vec![true, false, true]] };
    assert_eq!(image_to_gw(7, 9, &img), b"GW7,9,1,1\r\n\x5F\r\n".to_vec());
    let blank = Bitmap { width: 1, height: 1, rows: vec![vec![false]] };
    assert_eq!(image_to_gw(0, 0, &blank), b"GW0,0,1,1\r\n\xFF\r\n".to_vec());
}

#[test]
fn bold_reaches_the_name_too() {
    let price = run(vec![solid(0, 0, 10, 1)]);
    let name = run(vec![Glyph { min_x: 0, min_y: 0, max_x: 2, max_y: 1, ink: vec![true, false] }]);
    let plain = render_name_price_space_between(&name, &price, 100, false);
    let bold = render_name_price_space_between(&name, &price, 100, true);
    assert_eq!((plain.rows[0][98], plain.rows[0][99]), (true, false));
    assert_eq!((bold.rows[0][98], bold.rows[0][99]), (true, true));
}

#[test]
fn name_ink_never_enters_the_price_room() {
    let price = run(vec![solid(0, 0, 40, 1)]);
    let name = run(vec![solid(-2, 0, 4, 1), solid(0, 0, 300, 1)]);
    let img = render_name_price_space_between(&name, &price, 100, false);
    for x in 0..100usize {
        let want = (5..45).contains(&x) || x >= 55;
        assert_eq!(img.rows[0][x], want, "column {}", x);
    }
}
