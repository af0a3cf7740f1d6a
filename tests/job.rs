use epl_label::{
    bidi_then_shape, build_four_product_label_with_brand, build_two_product_label_clean_centered,
    build_two_product_label_with_brand, center_x_for_ean13, encode_job, epl_line, gw_bytes,
    name_and_price, price_with_currency, push_decimal, Glyph, GlyphRun, JobSettings,
    PlacedElement, Symbology,
};

fn solid(min_x: i32, min_y: i32, w: i32, h: i32) -> Glyph {
    Glyph { min_x, min_y, max_x: min_x + w, max_y: min_y + h, ink: vec![true; (w * h) as usize] }
}

fn run(w: i32) -> GlyphRun {
    GlyphRun { ascent: 30, descent: -8, glyphs: vec![solid(0, 4, w, 20)] }
}

fn count(hay: &[u8], needle: &[u8]) -> usize {
    hay.windows(needle.len()).filter(|w| *w == needle).count()
}

/// Splits a job into its lines, skipping the binary payload after each GW header.
fn lines(job: &[u8]) -> Vec<String> {
    let mut out = Vec::new();
    let mut i = 0;
    while i < job.len() {
        let end = (i..job.len() - 1).find(|&k| job[k] == b'\r' && job[k + 1] == b'\n').unwrap();
        let line = String::from_utf8(job[i..end].to_vec()).unwrap();
        i = end + 2;
        if line.starts_with("GW") {
            let f: Vec<usize> = line[2..].split(',').map(|v| v.parse().unwrap()).collect();
            i += f[2] * f[3];
            assert_eq!(&job[i..i + 2], b"\r\n");
            i += 2;
        }
        out.push(line);
    }
    out
}

#[test]
fn ean13_centred_on_the_label() {
    assert_eq!(center_x_for_ean13(440, 2), 125);
    assert_eq!(center_x_for_ean13(221, 2), 15);
    assert_eq!(center_x_for_ean13(100, 2), 0);
}

#[test]
fn command_lines_end_in_crlf() {
    let mut buf = b"x".to_vec();
    epl_line(&mut buf, "P1");
    assert_eq!(buf, b"xP1\r\n");
    let mut n = Vec::new();
    push_decimal(&mut n, 0);
    push_decimal(&mut n, 4294967296);
    assert_eq!(n, b"04294967296");
}

#[test]
fn image_block_declares_bytes_per_row() {
    let mut buf = Vec::new();
    gw_bytes(&mut buf, 10, 20, 9, 2, &[1, 2, 3, 4]);
    assert_eq!(buf, b"GW10,20,2,2\r\n\x01\x02\x03\x04\r\n");
}

#[test]
fn job_has_header_elements_and_print() {
    let els = vec![
        PlacedElement::Barcode {
            x: 1,
            y: 2,
            symbology: Symbology::Ean13,
            narrow: 2,
            wide: 3,
            height: 35,
            data: "123456789012".to_string(),
        },
        PlacedElement::Image { x: 5, y: 6, width: 8, height: 1, rows: vec![0xAB] },
    ];
    let job = encode_job(JobSettings { label_width: 440, label_height: 320, darkness: 8, speed: 2 }, &els);
    let want: &[u8] = b"N\r\nq440\r\nQ320,24\r\nD8\r\nS2\r\nB1,2,0,E30,2,3,35,B,\"123456789012\"\r\nGW5,6,1,1\r\n\xAB\r\nP1\r\n";
    assert_eq!(job, want);
}

#[test]
fn two_product_job_has_two_images_and_two_barcodes() {
    let job = build_two_product_label_clean_centered(&run(100), &run(60), "400638133393", "590123412345");
    assert!(job.starts_with(b"N\r\n"));
    assert!(job.ends_with(b"P1\r\n"));
    assert_eq!(count(&job, b"q440\r\n"), 1);
    assert_eq!(count(&job, b"Q320,24\r\n"), 1);
    let ls = lines(&job);
    assert_eq!(
        ls,
        vec![
            "N",
            "q440",
            "Q320,24",
            "D5",
            "S3",
            "GW324,8,14,38",
            "B125,62,0,1,2,4,50,B,\"400638133393\"",
            "GW364,138,9,38",
            "B125,192,0,1,2,4,50,B,\"590123412345\"",
            "P1",
        ]
    );
}

#[test]
fn brand_two_product_layout() {
    let brand = GlyphRun { ascent: 30, descent: -10, glyphs: vec![solid(0, 0, 80, 30)] };
    let job = build_two_product_label_with_brand(
        &brand, &run(50), &run(40), "4006381333931", &run(50), &run(40), "12",
    );
    let ls = lines(&job);
    assert_eq!(
        ls,
        vec![
            "N",
            "q440",
            "Q320,24",
            "D8",
            "S2",
            "GW178,8,11,40",
            "GW10,42,53,38",
            "B125,84,0,E30,2,3,35,B,\"400638133393\"",
            "GW178,168,11,40",
            "GW10,206,53,38",
            "B125,248,0,E30,2,3,35,B,\"120000000000\"",
            "P1",
        ]
    );
}

#[test]
fn four_product_grid_layout() {
    let brand = GlyphRun { ascent: 30, descent: -10, glyphs: vec![solid(0, 0, 80, 30)] };
    let job = build_four_product_label_with_brand(
        &brand, &run(50), &run(40), "1", &run(50), &run(40), "2", &run(50), &run(40), "3",
        &run(50), &run(40), "4",
    );
    let ls = lines(&job);
    assert_eq!(count(&job, b"P1\r\n"), 1);
    assert_eq!(
        ls,
        vec![
            "N",
            "q440",
            "Q320,24",
            "D8",
            "S2",
            "GW68,22,11,40",
            "GW287,22,11,40",
            "GW5,58,27,38",
            "B19,99,0,E30,2,3,35,B,\"100000000000\"",
            "GW223,58,27,38",
            "B234,99,0,E30,2,3,35,B,\"200000000000\"",
            "GW68,181,11,40",
            "GW287,181,11,40",
            "GW5,217,27,38",
            "B19,258,0,E30,2,3,35,B,\"300000000000\"",
            "GW223,217,27,38",
            "B234,258,0,E30,2,3,35,B,\"400000000000\"",
            "P1",
        ]
    );
}

#[test]
fn shaping_keeps_latin_and_digits_in_order() {
    assert_eq!(bidi_then_shape(""), "");
    assert_eq!(bidi_then_shape("abc 123"), "abc 123");
}

#[test]
fn arabic_runs_are_reshaped_and_reversed() {
    let word = "\u{0633}\u{0644}\u{0627}\u{0645}";
    let out = bidi_then_shape(word);
    assert_ne!(out, word);
    // seen initial, lam-alef ligature final, meem isolated, in painting order
    assert_eq!(out, "\u{FEE1}\u{FEFC}\u{FEB3}");
}

#[test]
fn price_text_carries_the_currency() {
    assert_eq!(price_with_currency("12.50"), "12.50 \u{062C}.\u{0645}");
    assert_eq!(name_and_price("tea", "5"), "tea    5 \u{062C}.\u{0645}");
}

#[test]
fn digits_come_first_in_a_right_to_left_line() {
    let out = bidi_then_shape("\u{0633}\u{0644}\u{0627}\u{0645} 123");
    assert_eq!(out, "123 \u{FEE1}\u{FEFC}\u{FEB3}");
}

#[test]
fn zero_width_joiner_is_dropped_before_shaping() {
    let out = bidi_then_shape("\u{200D}\u{0644}\u{0627}");
    assert!(!out.contains('\u{200D}'));
    assert_eq!(out, bidi_then_shape("\u{0644}\u{0627}"));
}

#[test]
fn text_after_a_line_break_is_kept() {
    assert_eq!(bidi_then_shape("ab\ncd"), "ab\ncd");
}
