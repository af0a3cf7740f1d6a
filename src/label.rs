use vstd::prelude::*;
use crate::ean13::{all_digits, digits_of, ensure_valid_ean13, is_digit, padded_payload};
use crate::epl::{
    barcode_text, bytes_per_row, comma_decimal, crlf, decimal, element_bytes, encode_job, gw_header, job_header,
    job_bytes, print_one, symbology_bytes, views, ElementView, JobSettings, PlacedElement, Symbology,
};
use crate::reader::{
    gw_payload_len, is_gw_line, lemma_decimal_digits, lemma_four_fields, lemma_read_empty,
    lemma_read_image_line, lemma_read_plain_line, no_cr, read_lines,
};
use vstd::seq_lib::lemma_concat_associative;
use vstd::utf8::{encode_utf8, is_ascii_chars, is_ascii_chars_encode_utf8};
use crate::pack::{image_to_row_bytes, lemma_packed_rows_len, packed_rows, INVERT_BITS};
use crate::raster::{
    line_height_of, name_price_pixels, padded_width, rasterize_line, render_arabic_line_tight_1bit,
    render_name_price_space_between, tight_line, tight_width_of, Bitmap, GlyphRun, Stroke,
};

verus! {

/// Canvas width in dots (about 55 mm at 203 dpi).
pub const LABEL_W: u32 = 440;

/// Canvas height in dots (about 40 mm).
pub const LABEL_H: u32 = 320;

/// Module width of the barcodes, in dots.
pub const NARROW: u32 = 2;

/// Modules across one EAN-13 symbol.
pub const EAN13_MODULES: u32 = 95;

/// Right margin of the right-aligned product lines.
pub const PAD_RIGHT: u32 = 10;

/// Side padding of the tight product lines.
pub const LINE_PAD: u32 = 3;

/// Print darkness (0 to 15) of the single-line two-product label.
pub const PLAIN_DARKNESS: u8 = 5;

/// Print speed (1 to 6) of the single-line two-product label.
pub const PLAIN_SPEED: u8 = 3;

/// Bar height of the single-line two-product label's barcodes.
pub const PLAIN_BAR_HEIGHT: u32 = 50;

/// Wide-bar code of the single-line two-product label's barcodes.
pub const PLAIN_WIDE: u32 = 4;

/// Print darkness of the labels that carry a brand mark.
pub const BRAND_DARKNESS: u8 = 8;

/// Print speed of the labels that carry a brand mark.
pub const BRAND_SPEED: u8 = 2;

/// Bar height of the EAN-13 barcodes under a brand mark.
pub const BRAND_BAR_HEIGHT: u32 = 35;

/// Wide-bar ratio code of the EAN-13 barcodes under a brand mark.
pub const BRAND_WIDE: u32 = 3;

/// Side padding of the brand mark.
pub const BRAND_PAD: u32 = 2;

/// Width of the name-and-price line on the two-product brand label.
pub const WIDE_LINE_W: u32 = 420;

/// Quadrant width of the four-product grid (half the label).
pub const QUAD_W: u32 = 220;

/// Quadrant height of the four-product grid; also where the lower half of
/// the two-product brand label starts.
pub const QUAD_H: u32 = 160;

/// Half the signed gap between quadrants (the gap is -2: the quadrants
/// overlap slightly).
pub const HALF_GAP: i64 = -1;

/// How far the whole four-product grid sits below the top edge.
pub const GRID_OFFSET_Y: u32 = 18;

/// x of something `w` wide centred in a region `region` wide starting at 0;
/// 0 when it does not fit.
pub open spec fn center_of(region: int, w: int) -> int {
    if region - w < 0 {
        0
    } else {
        (region - w) / 2
    }
}

/// Division by two rounding toward zero.
pub open spec fn half_toward_zero(d: int) -> int {
    if d >= 0 {
        d / 2
    } else {
        -((-d) / 2)
    }
}

pub open spec fn clamp0(v: int) -> int {
    if v < 0 {
        0
    } else {
        v
    }
}

/// x of an EAN-13 symbol with module width `narrow` centred across
/// `label_w`: `max(0, (label_w - 95 narrow) / 2)`.
pub fn center_x_for_ean13(label_w: u32, narrow: u32) -> (r: u32)
    ensures
        r as int == center_of(label_w as int, EAN13_MODULES * narrow),
{
    let w: u64 = EAN13_MODULES as u64 * narrow as u64;
    if (label_w as u64) < w {
        0
    } else {
        ((label_w as u64 - w) / 2) as u32
    }
}

fn center_in(region: u64, w: u64) -> (r: u64)
    requires
        region <= 0x1_0000_0000,
    ensures
        r as int == center_of(region as int, w as int),
{
    if region < w {
        0
    } else {
        (region - w) / 2
    }
}

/// x of something `w` wide centred in the right column of the grid.
pub open spec fn right_column_x(w: int) -> int {
    clamp0(QUAD_W + HALF_GAP + half_toward_zero(QUAD_W - w))
}

/// Width of the left column of the grid.
pub open spec fn left_column_w() -> int {
    QUAD_W - HALF_GAP
}

fn right_column_x_of(w: u32) -> (r: u64)
    ensures
        r as int == right_column_x(w as int),
{
    let d: i64 = QUAD_W as i64 - w as i64;
    let half: i64 = if d >= 0 {
        d / 2
    } else {
        -((-d) / 2)
    };
    let x: i64 = QUAD_W as i64 + HALF_GAP + half;
    if x < 0 {
        0
    } else {
        x as u64
    }
}

/// The element of a packed image placed at `(x, y)`.
pub open spec fn image_view(x: int, y: int, w: nat, h: nat, px: Seq<Seq<bool>>) -> ElementView {
    ElementView::Image {
        x: x as nat,
        y: y as nat,
        width: w,
        height: h,
        rows: packed_rows(px, bytes_per_row(w), INVERT_BITS),
    }
}

pub open spec fn barcode_view(
    x: int,
    y: int,
    sym: Symbology,
    wide: nat,
    height: nat,
    data: Seq<char>,
) -> ElementView {
    ElementView::Barcode {
        x: x as nat,
        y: y as nat,
        symbology: sym,
        narrow: NARROW as nat,
        wide,
        height,
        data,
    }
}

fn place_image(x: u64, y: u64, img: &Bitmap) -> (r: PlacedElement)
    requires
        img.wf(),
    ensures
        r@ == image_view(x as int, y as int, img.width as nat, img.height as nat, img@),
{
    let (width, height, rows) = image_to_row_bytes(img);
    PlacedElement::Image { x, y, width, height, rows }
}

fn copy_str(s: &str) -> (r: String)
    ensures
        r@ == s@,
{
    s.to_owned()
}

pub open spec fn plain_settings() -> JobSettings {
    JobSettings {
        label_width: LABEL_W,
        label_height: LABEL_H,
        darkness: PLAIN_DARKNESS,
        speed: PLAIN_SPEED,
    }
}

pub open spec fn brand_settings() -> JobSettings {
    JobSettings {
        label_width: LABEL_W,
        label_height: LABEL_H,
        darkness: BRAND_DARKNESS,
        speed: BRAND_SPEED,
    }
}

pub open spec fn line_w(run: GlyphRun, pad: int) -> nat {
    padded_width(tight_width_of(run.glyphs@), pad) as nat
}

pub open spec fn line_h(run: GlyphRun) -> nat {
    line_height_of(run.ascent as int, run.descent as int) as nat
}

/// Layout of the single-line two-product label: each product line
/// right-aligned `PAD_RIGHT` from the edge, its Code 128 barcode centred
/// 16 dots below it, the second product 26 dots under the first barcode.
pub open spec fn plain_two_product_elements(
    line1: GlyphRun,
    line2: GlyphRun,
    barcode1: Seq<char>,
    barcode2: Seq<char>,
) -> Seq<ElementView> {
    let w1 = line_w(line1, LINE_PAD as int);
    let w2 = line_w(line2, LINE_PAD as int);
    let h1 = line_h(line1);
    let h2 = line_h(line2);
    let text1_y = 8int;
    let bc1_y = text1_y + h1 + 16;
    let text2_y = bc1_y + PLAIN_BAR_HEIGHT + 26;
    let bc2_y = text2_y + h2 + 16;
    let bx = center_of(LABEL_W as int, EAN13_MODULES * NARROW);
    seq![
        image_view(clamp0(LABEL_W - PAD_RIGHT - w1), text1_y, w1, h1, tight_line(line1, LINE_PAD as int, Stroke::Double)),
        barcode_view(bx, bc1_y, Symbology::Code128, PLAIN_WIDE as nat, PLAIN_BAR_HEIGHT as nat, barcode1),
        image_view(clamp0(LABEL_W - PAD_RIGHT - w2), text2_y, w2, h2, tight_line(line2, LINE_PAD as int, Stroke::Double)),
        barcode_view(bx, bc2_y, Symbology::Code128, PLAIN_WIDE as nat, PLAIN_BAR_HEIGHT as nat, barcode2),
    ]
}

fn right_aligned_x(w: u32) -> (r: u64)
    ensures
        r as int == clamp0(LABEL_W - PAD_RIGHT - w),
{
    let edge: u64 = (LABEL_W - PAD_RIGHT) as u64;
    if (w as u64) > edge {
        0
    } else {
        edge - w as u64
    }
}

/// Two products, each a single line (`name    price` and currency, already
/// laid out as `line1` and `line2`) over a Code 128 barcode of the text
/// given, on one label.
pub fn build_two_product_label_clean_centered(
    line1: &GlyphRun,
    line2: &GlyphRun,
    p1_barcode: &str,
    p2_barcode: &str,
) -> (r: Vec<u8>)
    requires
        line1.wf(),
        line2.wf(),
    ensures
        r@ == job_bytes(
            plain_settings(),
            plain_two_product_elements(*line1, *line2, p1_barcode@, p2_barcode@),
        ),
{
    let im1 = render_arabic_line_tight_1bit(line1, LINE_PAD);
    let im2 = render_arabic_line_tight_1bit(line2, LINE_PAD);
    let x1 = right_aligned_x(im1.width);
    let x2 = right_aligned_x(im2.width);
    let text1_y: u64 = 8;
    let bc1_y: u64 = text1_y + im1.height as u64 + 16;
    let text2_y: u64 = bc1_y + PLAIN_BAR_HEIGHT as u64 + 26;
    let bc2_y: u64 = text2_y + im2.height as u64 + 16;
    let bx = center_x_for_ean13(LABEL_W, NARROW) as u64;
    let mut els: Vec<PlacedElement> = Vec::new();
    els.push(place_image(x1, text1_y, &im1));
    els.push(
        PlacedElement::Barcode {
            x: bx,
            y: bc1_y,
            symbology: Symbology::Code128,
            narrow: NARROW,
            wide: PLAIN_WIDE,
            height: PLAIN_BAR_HEIGHT,
            data: copy_str(p1_barcode),
        },
    );
    els.push(place_image(x2, text2_y, &im2));
    els.push(
        PlacedElement::Barcode {
            x: bx,
            y: bc2_y,
            symbology: Symbology::Code128,
            narrow: NARROW,
            wide: PLAIN_WIDE,
            height: PLAIN_BAR_HEIGHT,
            data: copy_str(p2_barcode),
        },
    );
    assert(views(els@) =~= plain_two_product_elements(*line1, *line2, p1_barcode@, p2_barcode@));
    let settings = JobSettings {
        label_width: LABEL_W,
        label_height: LABEL_H,
        darkness: PLAIN_DARKNESS,
        speed: PLAIN_SPEED,
    };
    encode_job(settings, &els)
}

/// The bytes of an ASCII digit string hold no carriage return.
proof fn lemma_digit_bytes_no_cr(bc: Seq<char>)
    requires
        all_digits(bc),
    ensures
        no_cr(encode_utf8(bc)),
{
    assert(is_ascii_chars(bc)) by {
        assert forall|i: int| 0 <= i < bc.len() implies '\0' <= #[trigger] bc[i] <= '\u{7f}' by {
            assert(is_digit(bc[i]));
        }
    }
    is_ascii_chars_encode_utf8(bc);
    assert forall|i: int| 0 <= i < encode_utf8(bc).len() implies #[trigger] encode_utf8(bc)[i] != 13 by {
        assert(is_digit(bc[i]));
        assert(bc[i] as u8 == encode_utf8(bc)[i]);
    }
}

proof fn lemma_no_cr_add(a: Seq<u8>, b: Seq<u8>)
    requires
        no_cr(a),
        no_cr(b),
    ensures
        no_cr(a + b),
{
    assert forall|i: int| 0 <= i < (a + b).len() implies #[trigger] (a + b)[i] != 13 by {
        if i < a.len() {
            assert((a + b)[i] == a[i]);
        } else {
            assert((a + b)[i] == b[i - a.len()]);
        }
    }
}

proof fn lemma_decimal_no_cr(n: nat)
    ensures
        no_cr(decimal(n)),
        no_cr(comma_decimal(n)),
{
    lemma_decimal_digits(n);
    assert(no_cr(decimal(n)));
    assert(no_cr(seq![44u8]));
    lemma_no_cr_add(seq![44u8], decimal(n));
}

/// An image header line carries no CR and declares `height` rows of
/// `ceil(width / 8)` bytes.
proof fn lemma_gw_header(x: nat, y: nat, w: nat, h: nat)
    ensures
        no_cr(gw_header(x, y, w, h)),
        is_gw_line(gw_header(x, y, w, h)),
        gw_payload_len(gw_header(x, y, w, h)) == h * bytes_per_row(w),
{
    let body = decimal(x) + comma_decimal(y) + comma_decimal(bytes_per_row(w)) + comma_decimal(h);
    lemma_four_fields(x, y, bytes_per_row(w), h);
    let hdr = gw_header(x, y, w, h);
    assert(no_cr(seq![71u8, 87u8]));
    lemma_no_cr_add(seq![71u8, 87u8], body);
    assert(hdr.subrange(2, hdr.len() as int) =~= body);
    assert(bytes_per_row(w) * h == h * bytes_per_row(w)) by (nonlinear_arith);
}

/// A barcode field line over a digit string carries no CR.
proof fn lemma_barcode_text(x: nat, y: nat, sym: Symbology, n: nat, w: nat, h: nat, bc: Seq<char>)
    requires
        all_digits(bc),
    ensures
        no_cr(barcode_text(x, y, sym, n, w, h, encode_utf8(bc))),
        !is_gw_line(barcode_text(x, y, sym, n, w, h, encode_utf8(bc))),
        barcode_text(x, y, sym, n, w, h, encode_utf8(bc))[0] == 66,
{
    lemma_decimal_no_cr(x);
    lemma_decimal_no_cr(y);
    lemma_decimal_no_cr(n);
    lemma_decimal_no_cr(w);
    lemma_decimal_no_cr(h);
    lemma_digit_bytes_no_cr(bc);
    let s1 = seq![66u8];
    let s2 = seq![44u8, 48u8, 44u8];
    let s3 = symbology_bytes(sym);
    let s4 = seq![44u8, 66u8, 44u8, 34u8];
    let s5 = seq![34u8];
    assert(no_cr(s1) && no_cr(s2) && no_cr(s3) && no_cr(s4) && no_cr(s5));
    let mut t = s1;
    lemma_no_cr_add(t, decimal(x));
    t = t + decimal(x);
    lemma_no_cr_add(t, comma_decimal(y));
    t = t + comma_decimal(y);
    lemma_no_cr_add(t, s2);
    t = t + s2;
    lemma_no_cr_add(t, s3);
    t = t + s3;
    lemma_no_cr_add(t, comma_decimal(n));
    t = t + comma_decimal(n);
    lemma_no_cr_add(t, comma_decimal(w));
    t = t + comma_decimal(w);
    lemma_no_cr_add(t, comma_decimal(h));
    t = t + comma_decimal(h);
    lemma_no_cr_add(t, s4);
    t = t + s4;
    lemma_no_cr_add(t, encode_utf8(bc));
    t = t + encode_utf8(bc);
    lemma_no_cr_add(t, s5);
    t = t + s5;
    assert(t =~= barcode_text(x, y, sym, n, w, h, encode_utf8(bc)));
}

/// The setup lines of the single-line two-product job.
proof fn lemma_plain_header()
    ensures
        job_header(plain_settings()) == seq![78u8] + crlf() + seq![113u8, 52, 52, 48] + crlf() + seq![
            81u8,
            51,
            50,
            48,
            44,
            50,
            52,
        ] + crlf() + seq![68u8, 53] + crlf() + seq![83u8, 51] + crlf(),
{
    reveal_with_fuel(crate::epl::decimal, 4);
    assert(job_header(plain_settings()) =~= seq![78u8] + crlf() + seq![113u8, 52, 52, 48] + crlf()
        + seq![81u8, 51, 50, 48, 44, 50, 52] + crlf() + seq![68u8, 53] + crlf() + seq![83u8, 51]
        + crlf());
}

/// The command lines the single-line two-product job is read as.
pub open spec fn plain_two_product_lines(
    line1: GlyphRun,
    line2: GlyphRun,
    barcode1: Seq<char>,
    barcode2: Seq<char>,
) -> Seq<Seq<u8>> {
    let w1 = line_w(line1, LINE_PAD as int);
    let w2 = line_w(line2, LINE_PAD as int);
    let h1 = line_h(line1);
    let h2 = line_h(line2);
    let bc1_y = 8 + h1 + 16;
    let text2_y = bc1_y + PLAIN_BAR_HEIGHT + 26;
    let bc2_y = text2_y + h2 + 16;
    let bx = center_of(LABEL_W as int, EAN13_MODULES * NARROW) as nat;
    seq![
        seq![78u8],
        seq![113u8, 52, 52, 48],
        seq![81u8, 51, 50, 48, 44, 50, 52],
        seq![68u8, 53],
        seq![83u8, 51],
        gw_header(clamp0(LABEL_W - PAD_RIGHT - w1) as nat, 8, w1, h1),
        barcode_text(bx, bc1_y as nat, Symbology::Code128, 2, 4, 50, encode_utf8(barcode1)),
        gw_header(clamp0(LABEL_W - PAD_RIGHT - w2) as nat, text2_y as nat, w2, h2),
        barcode_text(bx, bc2_y as nat, Symbology::Code128, 2, 4, 50, encode_utf8(barcode2)),
        seq![80u8, 49],
    ]
}

proof fn lemma_plain_elements_bytes(es: Seq<ElementView>)
    requires
        es.len() == 4,
    ensures
        crate::epl::elements_bytes(es) == element_bytes(es[0]) + element_bytes(es[1]) + element_bytes(
            es[2],
        ) + element_bytes(es[3]),
{
    reveal_with_fuel(crate::epl::elements_bytes, 5);
    assert(es.drop_last().drop_last().drop_last().drop_last() =~= Seq::<ElementView>::empty());
    assert(es.drop_last().drop_last().drop_last() =~= seq![es[0]]);
    assert(es.drop_last().drop_last() =~= seq![es[0], es[1]]);
    assert(es.drop_last() =~= seq![es[0], es[1], es[2]]);
    assert(crate::epl::elements_bytes(es) =~= element_bytes(es[0]) + element_bytes(es[1])
        + element_bytes(es[2]) + element_bytes(es[3]));
}

/// Ten lines, the sixth and eighth image headers each followed by exactly
/// their declared payload, read back as those ten lines.
proof fn lemma_read_ten(ls: Seq<Seq<u8>>, p5: Seq<u8>, p7: Seq<u8>)
    requires
        ls.len() == 10,
        forall|i: int| 0 <= i < 10 ==> no_cr(#[trigger] ls[i]),
        forall|i: int| 0 <= i < 10 ==> (is_gw_line(#[trigger] ls[i]) <==> (i == 5 || i == 7)),
        p5.len() == gw_payload_len(ls[5]),
        p7.len() == gw_payload_len(ls[7]),
    ensures
        read_lines(
            ls[0] + crlf() + ls[1] + crlf() + ls[2] + crlf() + ls[3] + crlf() + ls[4] + crlf() + (ls[5]
                + crlf() + p5 + crlf() + (ls[6] + crlf() + (ls[7] + crlf() + p7 + crlf() + (ls[8]
                + crlf() + (ls[9] + crlf() + Seq::empty()))))),
        ) == ls,
{
    let empty = Seq::<u8>::empty();
    lemma_read_empty();
    assert(no_cr(ls[9]) && no_cr(ls[8]) && no_cr(ls[7]) && no_cr(ls[6]) && no_cr(ls[5]));
    assert(no_cr(ls[4]) && no_cr(ls[3]) && no_cr(ls[2]) && no_cr(ls[1]) && no_cr(ls[0]));
    assert(is_gw_line(ls[5]) && is_gw_line(ls[7]));
    assert(!is_gw_line(ls[0]) && !is_gw_line(ls[1]) && !is_gw_line(ls[2]) && !is_gw_line(ls[3]));
    assert(!is_gw_line(ls[4]) && !is_gw_line(ls[6]) && !is_gw_line(ls[8]) && !is_gw_line(ls[9]));
    let r9 = ls[9] + crlf() + empty;
    lemma_read_plain_line(ls[9], empty);
    let r8 = ls[8] + crlf() + r9;
    lemma_read_plain_line(ls[8], r9);
    let r7 = ls[7] + crlf() + p7 + crlf() + r8;
    lemma_read_image_line(ls[7], p7, r8);
    let r6 = ls[6] + crlf() + r7;
    lemma_read_plain_line(ls[6], r7);
    let r5 = ls[5] + crlf() + p5 + crlf() + r6;
    lemma_read_image_line(ls[5], p5, r6);
    lemma_read_plain_line(ls[4], r5);
    let r4 = ls[4] + crlf() + r5;
    lemma_read_plain_line(ls[3], r4);
    let r3 = ls[3] + crlf() + r4;
    lemma_read_plain_line(ls[2], r3);
    let r2 = ls[2] + crlf() + r3;
    lemma_read_plain_line(ls[1], r2);
    let r1 = ls[1] + crlf() + r2;
    lemma_read_plain_line(ls[0], r1);
    let r0 = ls[0] + crlf() + r1;
    assert(read_lines(r0) =~= ls);
    assert(ls[0] + crlf() + ls[1] + crlf() + ls[2] + crlf() + ls[3] + crlf() + ls[4] + crlf() + r5
        =~= r0);
}

/// Read line by line as the printer reads it (each image's declared payload
/// skipped), the single-line two-product job with digit-string barcodes is
/// the ten command lines of `plain_two_product_lines`, each image header
/// declaring exactly the payload that follows it.
proof fn lemma_plain_two_product_reads(
    line1: GlyphRun,
    line2: GlyphRun,
    barcode1: Seq<char>,
    barcode2: Seq<char>,
)
    requires
        all_digits(barcode1),
        all_digits(barcode2),
    ensures
        read_lines(job_bytes(plain_settings(), plain_two_product_elements(line1, line2, barcode1, barcode2)))
            == plain_two_product_lines(line1, line2, barcode1, barcode2),
{
    let es = plain_two_product_elements(line1, line2, barcode1, barcode2);
    let ls = plain_two_product_lines(line1, line2, barcode1, barcode2);
    let w1 = line_w(line1, LINE_PAD as int);
    let w2 = line_w(line2, LINE_PAD as int);
    let h1 = line_h(line1);
    let h2 = line_h(line2);
    let bc1_y = 8 + h1 + 16;
    let text2_y = bc1_y + PLAIN_BAR_HEIGHT + 26;
    let bc2_y = text2_y + h2 + 16;
    let bx = center_of(LABEL_W as int, EAN13_MODULES * NARROW) as nat;
    let rows1 = packed_rows(tight_line(line1, LINE_PAD as int, Stroke::Double), bytes_per_row(w1), INVERT_BITS);
    let rows2 = packed_rows(tight_line(line2, LINE_PAD as int, Stroke::Double), bytes_per_row(w2), INVERT_BITS);
    lemma_packed_rows_len(tight_line(line1, LINE_PAD as int, Stroke::Double), bytes_per_row(w1), INVERT_BITS);
    lemma_packed_rows_len(tight_line(line2, LINE_PAD as int, Stroke::Double), bytes_per_row(w2), INVERT_BITS);
    lemma_gw_header(clamp0(LABEL_W - PAD_RIGHT - w1) as nat, 8, w1, h1);
    lemma_gw_header(clamp0(LABEL_W - PAD_RIGHT - w2) as nat, text2_y as nat, w2, h2);
    lemma_barcode_text(bx, bc1_y as nat, Symbology::Code128, 2, 4, 50, barcode1);
    lemma_barcode_text(bx, bc2_y as nat, Symbology::Code128, 2, 4, 50, barcode2);
    assert(no_cr(ls[0]) && no_cr(ls[1]) && no_cr(ls[2]) && no_cr(ls[3]) && no_cr(ls[4]) && no_cr(ls[9]));
    assert(rows1.len() == gw_payload_len(ls[5]));
    assert(rows2.len() == gw_payload_len(ls[7]));
    lemma_read_ten(ls, rows1, rows2);
    lemma_plain_header();
    lemma_plain_elements_bytes(es);
    let e0 = element_bytes(es[0]);
    let e1 = element_bytes(es[1]);
    let e2 = element_bytes(es[2]);
    let e3 = element_bytes(es[3]);
    assert(e0 == ls[5] + crlf() + rows1 + crlf());
    assert(e1 == ls[6] + crlf());
    assert(e2 == ls[7] + crlf() + rows2 + crlf());
    assert(e3 == ls[8] + crlf());
    let empty = Seq::<u8>::empty();
    let r9 = ls[9] + crlf() + empty;
    assert(print_one() =~= r9);
    let r8 = e3 + r9;
    let r7 = e2 + r8;
    let r6 = e1 + r7;
    let r5 = e0 + r6;
    lemma_concat_associative(e0 + e1 + e2, e3, r9);
    lemma_concat_associative(e0 + e1, e2, r8);
    lemma_concat_associative(e0, e1, r7);
    assert(e0 + e1 + e2 + e3 + print_one() == r5);
    let hdr = job_header(plain_settings());
    lemma_concat_associative(hdr, e0 + e1 + e2 + e3, print_one());
    assert(job_bytes(plain_settings(), es) == hdr + r5);
}

/// Read line by line as the printer reads it (each image's declared payload
/// skipped), the single-line two-product job with digit-string barcodes is
/// exactly ten command lines: `N`, `q440`, `Q320,24`, `D5`, `S3`, an image
/// header, the first barcode line, an image header, the second barcode line,
/// `P1`. So `q440`, `Q320,24` and `P1` each occur once, two lines are image
/// headers, each declaring exactly the payload that follows it, and two are
/// barcode lines carrying the barcodes verbatim.
pub proof fn lemma_plain_two_product_lines(
    line1: GlyphRun,
    line2: GlyphRun,
    barcode1: Seq<char>,
    barcode2: Seq<char>,
)
    requires
        all_digits(barcode1),
        all_digits(barcode2),
    ensures
        ({
            let es = plain_two_product_elements(line1, line2, barcode1, barcode2);
            let ls = read_lines(job_bytes(plain_settings(), es));
            &&& ls.len() == 10
            &&& ls[0] == seq![78u8]
            &&& ls[1] == seq![113u8, 52, 52, 48]
            &&& ls[2] == seq![81u8, 51, 50, 48, 44, 50, 52]
            &&& ls[3] == seq![68u8, 53]
            &&& ls[4] == seq![83u8, 51]
            &&& ls[9] == seq![80u8, 49]
            &&& forall|i: int| 0 <= i < 10 ==> (#[trigger] ls[i]).len() > 0
            &&& forall|i: int| 0 <= i < 10 && i != 1 ==> #[trigger] ls[i] != seq![113u8, 52, 52, 48]
            &&& forall|i: int|
                0 <= i < 10 && i != 2 ==> #[trigger] ls[i] != seq![81u8, 51, 50, 48, 44, 50, 52]
            &&& forall|i: int| 0 <= i < 10 && i != 9 ==> #[trigger] ls[i] != seq![80u8, 49]
            &&& forall|i: int| 0 <= i < 10 ==> (is_gw_line(#[trigger] ls[i]) <==> (i == 5 || i == 7))
            &&& forall|i: int| 0 <= i < 10 ==> ((#[trigger] ls[i])[0] == 66 <==> (i == 6 || i == 8))
            &&& es[0] matches ElementView::Image { rows, .. } && rows.len() == gw_payload_len(ls[5])
            &&& es[2] matches ElementView::Image { rows, .. } && rows.len() == gw_payload_len(ls[7])
            &&& es[1] matches ElementView::Barcode { x, y, symbology, narrow, wide, height, data }
                && ls[6] == barcode_text(x, y, symbology, narrow, wide, height, encode_utf8(barcode1))
                && data == barcode1
            &&& es[3] matches ElementView::Barcode { x, y, symbology, narrow, wide, height, data }
                && ls[8] == barcode_text(x, y, symbology, narrow, wide, height, encode_utf8(barcode2))
                && data == barcode2
        }),
{
    lemma_plain_two_product_reads(line1, line2, barcode1, barcode2);
    let ls = plain_two_product_lines(line1, line2, barcode1, barcode2);
    let w1 = line_w(line1, LINE_PAD as int);
    let w2 = line_w(line2, LINE_PAD as int);
    let h1 = line_h(line1);
    let h2 = line_h(line2);
    let bc1_y = 8 + h1 + 16;
    let text2_y = bc1_y + PLAIN_BAR_HEIGHT + 26;
    let bc2_y = text2_y + h2 + 16;
    let bx = center_of(LABEL_W as int, EAN13_MODULES * NARROW) as nat;
    lemma_packed_rows_len(tight_line(line1, LINE_PAD as int, Stroke::Double), bytes_per_row(w1), INVERT_BITS);
    lemma_packed_rows_len(tight_line(line2, LINE_PAD as int, Stroke::Double), bytes_per_row(w2), INVERT_BITS);
    lemma_gw_header(clamp0(LABEL_W - PAD_RIGHT - w1) as nat, 8, w1, h1);
    lemma_gw_header(clamp0(LABEL_W - PAD_RIGHT - w2) as nat, text2_y as nat, w2, h2);
    lemma_barcode_text(bx, bc1_y as nat, Symbology::Code128, 2, 4, 50, barcode1);
    lemma_barcode_text(bx, bc2_y as nat, Symbology::Code128, 2, 4, 50, barcode2);
    assert(ls[5][0] == 71 && ls[7][0] == 71);
    assert forall|i: int| 0 <= i < 10 && i != 1 implies #[trigger] ls[i] != seq![113u8, 52, 52, 48] by {
        assert(ls[i][0] != 113);
    }
    assert forall|i: int| 0 <= i < 10 && i != 2 implies #[trigger] ls[i] != seq![
        81u8,
        51,
        50,
        48,
        44,
        50,
        52,
    ] by {
        assert(ls[i][0] != 81);
    }
    assert forall|i: int| 0 <= i < 10 && i != 9 implies #[trigger] ls[i] != seq![80u8, 49] by {
        assert(ls[i][0] != 80);
    }
}

/// The brand mark: painted four times for extra weight, `BRAND_PAD` on
/// each side.
pub open spec fn brand_pixels(brand: GlyphRun) -> Seq<Seq<bool>> {
    tight_line(brand, BRAND_PAD as int, Stroke::Quad)
}

/// A name-and-price line `w` wide, bold price.
pub open spec fn product_pixels(name: GlyphRun, price: GlyphRun, w: int) -> Seq<Seq<bool>> {
    name_price_pixels(name.glyphs@, price.glyphs@, w, true, line_h(price))
}

pub open spec fn ean13_view(x: int, y: int, barcode: Seq<char>) -> ElementView {
    barcode_view(
        x,
        y,
        Symbology::Ean13,
        BRAND_WIDE as nat,
        BRAND_BAR_HEIGHT as nat,
        padded_payload(digits_of(barcode)),
    )
}

/// Layout of the two-product label with a brand mark: two halves, each the
/// brand centred at the top, the product line 6 dots closer than the brand's
/// bottom, and an EAN-13 barcode 4 dots under the line; the lower half
/// starts 4 dots further down.
pub open spec fn brand_two_product_elements(
    brand: GlyphRun,
    name1: GlyphRun,
    price1: GlyphRun,
    barcode1: Seq<char>,
    name2: GlyphRun,
    price2: GlyphRun,
    barcode2: Seq<char>,
) -> Seq<ElementView> {
    let bw = line_w(brand, BRAND_PAD as int);
    let bh = line_h(brand);
    let h1 = line_h(price1);
    let h2 = line_h(price2);
    let brand_x = center_of(LABEL_W as int, bw as int);
    let brand_y1 = 8int;
    let brand_y2 = QUAD_H + 8;
    let x = center_of(LABEL_W as int, WIDE_LINE_W as int);
    let text1_y = clamp0(brand_y1 + bh - 6);
    let bc1_y = text1_y + h1 + 4;
    let text2_y = clamp0(brand_y2 + bh - 6 + 4);
    let bc2_y = text2_y + h2 + 4;
    let bx = center_of(LABEL_W as int, EAN13_MODULES * NARROW);
    seq![
        image_view(brand_x, brand_y1, bw, bh, brand_pixels(brand)),
        image_view(x, text1_y, WIDE_LINE_W as nat, h1, product_pixels(name1, price1, WIDE_LINE_W as int)),
        ean13_view(bx, bc1_y, barcode1),
        image_view(brand_x, brand_y2, bw, bh, brand_pixels(brand)),
        image_view(x, text2_y, WIDE_LINE_W as nat, h2, product_pixels(name2, price2, WIDE_LINE_W as int)),
        ean13_view(bx, bc2_y, barcode2),
    ]
}

fn ean13_element(x: u64, y: u64, barcode: &str) -> (r: PlacedElement)
    ensures
        r@ == ean13_view(x as int, y as int, barcode@),
{
    PlacedElement::Barcode {
        x,
        y,
        symbology: Symbology::Ean13,
        narrow: NARROW,
        wide: BRAND_WIDE,
        height: BRAND_BAR_HEIGHT,
        data: ensure_valid_ean13(barcode),
    }
}

/// Two products with a brand mark above each: the brand and each product's
/// name and price (name right, price left) as laid-out glyph runs, and the
/// raw barcodes, which are cut or padded to twelve digits for the printer's
/// EAN-13 field.
pub fn build_two_product_label_with_brand(
    brand: &GlyphRun,
    name1: &GlyphRun,
    price1: &GlyphRun,
    barcode1: &str,
    name2: &GlyphRun,
    price2: &GlyphRun,
    barcode2: &str,
) -> (r: Vec<u8>)
    requires
        brand.wf(),
        name1.wf(),
        price1.wf(),
        name2.wf(),
        price2.wf(),
    ensures
        r@ == job_bytes(
            brand_settings(),
            brand_two_product_elements(
                *brand,
                *name1,
                *price1,
                barcode1@,
                *name2,
                *price2,
                barcode2@,
            ),
        ),
{
    let brand_img = rasterize_line(brand, BRAND_PAD, Stroke::Quad);
    let im1 = render_name_price_space_between(name1, price1, WIDE_LINE_W, true);
    let im2 = render_name_price_space_between(name2, price2, WIDE_LINE_W, true);
    let bh = brand_img.height as u64;
    let brand_x = center_in(LABEL_W as u64, brand_img.width as u64);
    let brand_y1: u64 = 8;
    let brand_y2: u64 = QUAD_H as u64 + 8;
    let x = center_in(LABEL_W as u64, WIDE_LINE_W as u64);
    let text1_y: u64 = brand_y1 + bh - 6;
    let bc1_y: u64 = text1_y + im1.height as u64 + 4;
    let text2_y: u64 = brand_y2 + bh - 6 + 4;
    let bc2_y: u64 = text2_y + im2.height as u64 + 4;
    let bx = center_x_for_ean13(LABEL_W, NARROW) as u64;
    let mut els: Vec<PlacedElement> = Vec::new();
    els.push(place_image(brand_x, brand_y1, &brand_img));
    els.push(place_image(x, text1_y, &im1));
    els.push(ean13_element(bx, bc1_y, barcode1));
    els.push(place_image(brand_x, brand_y2, &brand_img));
    els.push(place_image(x, text2_y, &im2));
    els.push(ean13_element(bx, bc2_y, barcode2));
    assert(views(els@) =~= brand_two_product_elements(
        *brand,
        *name1,
        *price1,
        barcode1@,
        *name2,
        *price2,
        barcode2@,
    ));
    let settings = JobSettings {
        label_width: LABEL_W,
        label_height: LABEL_H,
        darkness: BRAND_DARKNESS,
        speed: BRAND_SPEED,
    };
    encode_job(settings, &els)
}

/// Width of the name-and-price lines of the four-product grid: the left
/// column less 10 dots.
pub open spec fn grid_line_w() -> int {
    clamp0(left_column_w() - 10)
}

/// Layout of the four-product label: a 2 by 2 grid of quadrants with the
/// brand centred at the top of each, the product line under it (pulled up
/// by 10 dots) and an EAN-13 barcode 3 dots below the line.
pub open spec fn four_product_elements(
    brand: GlyphRun,
    names: Seq<GlyphRun>,
    prices: Seq<GlyphRun>,
    barcodes: Seq<Seq<char>>,
) -> Seq<ElementView> {
    let bw = line_w(brand, BRAND_PAD as int);
    let bh = line_h(brand);
    let pw = grid_line_w();
    let brand_x_left = center_of(left_column_w(), bw as int);
    let brand_x_right = right_column_x(bw as int);
    let brand_y_top = GRID_OFFSET_Y + 4;
    let brand_y_bottom = clamp0(GRID_OFFSET_Y + QUAD_H + HALF_GAP + 4);
    let x_left = center_of(left_column_w(), pw);
    let x_right = right_column_x(pw);
    let top_y = brand_y_top + bh + 6 - 10;
    let bottom_y = brand_y_bottom + bh + 6 - 10;
    let bc_left_x = clamp0(center_of(left_column_w(), EAN13_MODULES * NARROW) + 4);
    let bc_right_x = clamp0(QUAD_W + HALF_GAP + center_of(left_column_w(), EAN13_MODULES * NARROW));
    let bpx = brand_pixels(brand);
    seq![
        image_view(brand_x_left, brand_y_top, bw, bh, bpx),
        image_view(brand_x_right, brand_y_top, bw, bh, bpx),
        image_view(x_left, top_y, pw as nat, line_h(prices[0]), product_pixels(names[0], prices[0], pw)),
        ean13_view(bc_left_x, top_y + line_h(prices[0]) + 3, barcodes[0]),
        image_view(x_right, top_y, pw as nat, line_h(prices[1]), product_pixels(names[1], prices[1], pw)),
        ean13_view(bc_right_x, top_y + line_h(prices[1]) + 3, barcodes[1]),
        image_view(brand_x_left, brand_y_bottom, bw, bh, bpx),
        image_view(brand_x_right, brand_y_bottom, bw, bh, bpx),
        image_view(x_left, bottom_y, pw as nat, line_h(prices[2]), product_pixels(names[2], prices[2], pw)),
        ean13_view(bc_left_x, bottom_y + line_h(prices[2]) + 3, barcodes[2]),
        image_view(x_right, bottom_y, pw as nat, line_h(prices[3]), product_pixels(names[3], prices[3], pw)),
        ean13_view(bc_right_x, bottom_y + line_h(prices[3]) + 3, barcodes[3]),
    ]
}

/// Four products in a 2 by 2 grid, a brand mark at the top of every
/// quadrant: glyph runs for the brand and each name and price, and the raw
/// barcodes, cut or padded to twelve digits.
pub fn build_four_product_label_with_brand(
    brand: &GlyphRun,
    name1: &GlyphRun,
    price1: &GlyphRun,
    barcode1: &str,
    name2: &GlyphRun,
    price2: &GlyphRun,
    barcode2: &str,
    name3: &GlyphRun,
    price3: &GlyphRun,
    barcode3: &str,
    name4: &GlyphRun,
    price4: &GlyphRun,
    barcode4: &str,
) -> (r: Vec<u8>)
    requires
        brand.wf(),
        name1.wf(),
        price1.wf(),
        name2.wf(),
        price2.wf(),
        name3.wf(),
        price3.wf(),
        name4.wf(),
        price4.wf(),
    ensures
        r@ == job_bytes(
            brand_settings(),
            four_product_elements(
                *brand,
                seq![*name1, *name2, *name3, *name4],
                seq![*price1, *price2, *price3, *price4],
                seq![barcode1@, barcode2@, barcode3@, barcode4@],
            ),
        ),
{
    let brand_img = rasterize_line(brand, BRAND_PAD, Stroke::Quad);
    let left_w: u32 = (QUAD_W as i64 - HALF_GAP) as u32;
    let pw: u32 = left_w - 10;
    let im1 = render_name_price_space_between(name1, price1, pw, true);
    let im2 = render_name_price_space_between(name2, price2, pw, true);
    let im3 = render_name_price_space_between(name3, price3, pw, true);
    let im4 = render_name_price_space_between(name4, price4, pw, true);
    let bh = brand_img.height as u64;
    let brand_x_left = center_in(left_w as u64, brand_img.width as u64);
    let brand_x_right = right_column_x_of(brand_img.width);
    let brand_y_top: u64 = GRID_OFFSET_Y as u64 + 4;
    let brand_y_bottom: u64 = (GRID_OFFSET_Y as i64 + QUAD_H as i64 + HALF_GAP + 4) as u64;
    let x_left = center_in(left_w as u64, pw as u64);
    let x_right = right_column_x_of(pw);
    let top_y: u64 = brand_y_top + bh + 6 - 10;
    let bottom_y: u64 = brand_y_bottom + bh + 6 - 10;
    let bc_col = center_x_for_ean13(left_w, NARROW) as u64;
    let bc_left_x: u64 = bc_col + 4;
    let bc_right_x: u64 = (QUAD_W as i64 + HALF_GAP) as u64 + bc_col;
    let mut els: Vec<PlacedElement> = Vec::new();
    els.push(place_image(brand_x_left, brand_y_top, &brand_img));
    els.push(place_image(brand_x_right, brand_y_top, &brand_img));
    els.push(place_image(x_left, top_y, &im1));
    els.push(ean13_element(bc_left_x, top_y + im1.height as u64 + 3, barcode1));
    els.push(place_image(x_right, top_y, &im2));
    els.push(ean13_element(bc_right_x, top_y + im2.height as u64 + 3, barcode2));
    els.push(place_image(brand_x_left, brand_y_bottom, &brand_img));
    els.push(place_image(brand_x_right, brand_y_bottom, &brand_img));
    els.push(place_image(x_left, bottom_y, &im3));
    els.push(ean13_element(bc_left_x, bottom_y + im3.height as u64 + 3, barcode3));
    els.push(place_image(x_right, bottom_y, &im4));
    els.push(ean13_element(bc_right_x, bottom_y + im4.height as u64 + 3, barcode4));
    assert(views(els@) =~= four_product_elements(
        *brand,
        seq![*name1, *name2, *name3, *name4],
        seq![*price1, *price2, *price3, *price4],
        seq![barcode1@, barcode2@, barcode3@, barcode4@],
    ));
    let settings = JobSettings {
        label_width: LABEL_W,
        label_height: LABEL_H,
        darkness: BRAND_DARKNESS,
        speed: BRAND_SPEED,
    };
    encode_job(settings, &els)
}

} // verus!
