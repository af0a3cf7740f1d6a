use vstd::prelude::*;
use vstd::string::*;
use vstd::utf8::encode_utf8;

verus! {

/// Carriage return, line feed.
pub open spec fn crlf() -> Seq<u8> {
    seq![13u8, 10u8]
}

/// Decimal digits of `n` in ASCII, most significant first, no leading zeros.
pub open spec fn decimal(n: nat) -> Seq<u8>
    decreases n,
{
    if n < 10 {
        seq![(48 + n) as u8]
    } else {
        decimal(n / 10).push((48 + n % 10) as u8)
    }
}

/// `,` followed by the decimal digits of `n`.
pub open spec fn comma_decimal(n: nat) -> Seq<u8> {
    seq![44u8 /* , */] + decimal(n)
}

/// Bytes per packed row for an image `width` pixels wide.
pub open spec fn bytes_per_row(width: nat) -> nat {
    ((width + 7) / 8) as nat
}

/// The image header line `GW<x>,<y>,<bytesPerRow>,<height>`, without its CRLF.
pub open spec fn gw_header(x: nat, y: nat, width: nat, height: nat) -> Seq<u8> {
    seq![71u8 /* G */, 87u8 /* W */] + (decimal(x) + comma_decimal(y) + comma_decimal(
        bytes_per_row(width),
    ) + comma_decimal(height))
}

/// The image block: the `GW` header, CRLF, the raw rows, CRLF.
pub open spec fn gw_block(x: nat, y: nat, width: nat, height: nat, rows: Seq<u8>) -> Seq<u8> {
    gw_header(x, y, width, height) + crlf() + rows + crlf()
}

/// Barcode symbologies this printer dialect is asked to draw.
#[derive(Debug, Clone, Copy, PartialEq, Eq, Structural)]
pub enum Symbology {
    /// Selector `1`.
    Code128,
    /// Selector `E30`: EAN-13, the printer adds the check digit.
    Ean13,
}

pub open spec fn symbology_bytes(s: Symbology) -> Seq<u8> {
    match s {
        Symbology::Code128 => seq![49u8 /* 1 */],
        Symbology::Ean13 => seq![69u8 /* E */, 51u8 /* 3 */, 48u8 /* 0 */],
    }
}

/// The barcode field line `B<x>,<y>,0,<sym>,<narrow>,<wide>,<height>,B,"<data>"`,
/// without its CRLF.
pub open spec fn barcode_text(
    x: nat,
    y: nat,
    sym: Symbology,
    narrow: nat,
    wide: nat,
    height: nat,
    data: Seq<u8>,
) -> Seq<u8> {
    seq![66u8 /* B */] + decimal(x) + comma_decimal(y) + seq![44u8 /* , */, 48u8 /* 0 */, 44u8 /* , */]
        + symbology_bytes(sym) + comma_decimal(narrow) + comma_decimal(wide) + comma_decimal(height)
        + seq![44u8 /* , */, 66u8 /* B */, 44u8 /* , */, 34u8 /* " */] + data + seq![34u8 /* " */]
}

/// The barcode field line and its CRLF.
pub open spec fn barcode_line(
    x: nat,
    y: nat,
    sym: Symbology,
    narrow: nat,
    wide: nat,
    height: nat,
    data: Seq<u8>,
) -> Seq<u8> {
    barcode_text(x, y, sym, narrow, wide, height, data) + crlf()
}

/// One element of a label at its top-left position on the canvas.
pub enum PlacedElement {
    /// A packed monochrome image (`rows` holds `height` rows of
    /// `ceil(width / 8)` bytes).
    Image { x: u64, y: u64, width: u32, height: u32, rows: Vec<u8> },
    /// A barcode field drawn by the printer from `data`.
    Barcode {
        x: u64,
        y: u64,
        symbology: Symbology,
        narrow: u32,
        wide: u32,
        height: u32,
        data: String,
    },
}

/// What a placed element stands for: its position and fields as numbers and
/// sequences.
pub enum ElementView {
    Image { x: nat, y: nat, width: nat, height: nat, rows: Seq<u8> },
    Barcode {
        x: nat,
        y: nat,
        symbology: Symbology,
        narrow: nat,
        wide: nat,
        height: nat,
        data: Seq<char>,
    },
}

impl View for PlacedElement {
    type V = ElementView;

    open spec fn view(&self) -> ElementView {
        match *self {
            PlacedElement::Image { x, y, width, height, rows } => ElementView::Image {
                x: x as nat,
                y: y as nat,
                width: width as nat,
                height: height as nat,
                rows: rows@,
            },
            PlacedElement::Barcode { x, y, symbology, narrow, wide, height, data } => {
                ElementView::Barcode {
                    x: x as nat,
                    y: y as nat,
                    symbology,
                    narrow: narrow as nat,
                    wide: wide as nat,
                    height: height as nat,
                    data: data@,
                }
            },
        }
    }
}

pub open spec fn views(es: Seq<PlacedElement>) -> Seq<ElementView> {
    es.map_values(|e: PlacedElement| e@)
}

pub open spec fn element_bytes(e: ElementView) -> Seq<u8> {
    match e {
        ElementView::Image { x, y, width, height, rows } => gw_block(x, y, width, height, rows),
        ElementView::Barcode { x, y, symbology, narrow, wide, height, data } => barcode_line(
            x,
            y,
            symbology,
            narrow,
            wide,
            height,
            encode_utf8(data),
        ),
    }
}

pub open spec fn elements_bytes(es: Seq<ElementView>) -> Seq<u8>
    decreases es.len(),
{
    if es.len() == 0 {
        Seq::empty()
    } else {
        elements_bytes(es.drop_last()) + element_bytes(es.last())
    }
}

/// Canvas and print settings that open every job.
#[derive(Debug, Clone, Copy, PartialEq, Eq, Structural)]
pub struct JobSettings {
    pub label_width: u32,
    pub label_height: u32,
    pub darkness: u8,
    pub speed: u8,
}

/// `N`, `q<w>`, `Q<h>,24`, `D<d>`, `S<s>`, each line ended by CRLF.
pub open spec fn job_header(s: JobSettings) -> Seq<u8> {
    seq![78u8 /* N */] + crlf()
        + seq![113u8 /* q */] + decimal(s.label_width as nat) + crlf()
        + seq![81u8 /* Q */] + decimal(s.label_height as nat) + comma_decimal(24) + crlf()
        + seq![68u8 /* D */] + decimal(s.darkness as nat) + crlf()
        + seq![83u8 /* S */] + decimal(s.speed as nat) + crlf()
}

/// `P1` CRLF: print one copy.
pub open spec fn print_one() -> Seq<u8> {
    seq![80u8 /* P */, 49u8 /* 1 */] + crlf()
}

/// A whole print job: header, every element in order, the print command.
pub open spec fn job_bytes(s: JobSettings, es: Seq<ElementView>) -> Seq<u8> {
    job_header(s) + elements_bytes(es) + print_one()
}

fn push_slice(buf: &mut Vec<u8>, s: &[u8])
    ensures
        final(buf)@ == old(buf)@ + s@,
{
    let mut i: usize = 0;
    while i < s.len()
        invariant
            i <= s@.len(),
            buf@ == old(buf)@ + s@.subrange(0, i as int),
        decreases s@.len() - i,
    {
        buf.push(s[i]);
        i = i + 1;
        assert(buf@ =~= old(buf)@ + s@.subrange(0, i as int));
    }
    assert(s@.subrange(0, i as int) =~= s@);
}

fn push_crlf(buf: &mut Vec<u8>)
    ensures
        final(buf)@ == old(buf)@ + crlf(),
{
    buf.push(13u8);
    buf.push(10u8);
    assert(buf@ =~= old(buf)@ + crlf());
}

/// Appends the decimal digits of `n`.
pub fn push_decimal(buf: &mut Vec<u8>, n: u64)
    ensures
        final(buf)@ == old(buf)@ + decimal(n as nat),
    decreases n,
{
    if n >= 10 {
        push_decimal(buf, n / 10);
    }
    buf.push((48 + n % 10) as u8);
    assert(buf@ =~= old(buf)@ + decimal(n as nat));
}

fn push_comma_decimal(buf: &mut Vec<u8>, n: u64)
    ensures
        final(buf)@ == old(buf)@ + comma_decimal(n as nat),
{
    buf.push(44u8); // ','
    push_decimal(buf, n);
    assert(buf@ =~= old(buf)@ + comma_decimal(n as nat));
}

/// Appends `s` as one command line: its bytes, then CRLF.
pub fn epl_line(buf: &mut Vec<u8>, s: &str)
    ensures
        final(buf)@ == old(buf)@ + s.spec_bytes() + crlf(),
{
    push_slice(buf, s.as_bytes());
    push_crlf(buf);
}

fn push_gw_block(buf: &mut Vec<u8>, x: u64, y: u64, w: u32, h: u32, rows: &[u8])
    ensures
        final(buf)@ == old(buf)@ + gw_block(x as nat, y as nat, w as nat, h as nat, rows@),
{
    let bpr: u64 = (w as u64 + 7) / 8;
    buf.push(71u8); // 'G'
    buf.push(87u8); // 'W'
    push_decimal(buf, x);
    push_comma_decimal(buf, y);
    push_comma_decimal(buf, bpr);
    push_comma_decimal(buf, h as u64);
    push_crlf(buf);
    push_slice(buf, rows);
    push_crlf(buf);
    assert(buf@ =~= old(buf)@ + gw_block(x as nat, y as nat, w as nat, h as nat, rows@));
}

/// Appends an image block: the `GW` header with `ceil(w / 8)` bytes per row
/// and `h` rows, the raw `rows`, and CRLF.
pub fn gw_bytes(buf: &mut Vec<u8>, x: u32, y: u32, w: u32, h: u32, rows: &[u8])
    ensures
        final(buf)@ == old(buf)@ + gw_block(x as nat, y as nat, w as nat, h as nat, rows@),
{
    push_gw_block(buf, x as u64, y as u64, w, h, rows);
}

fn push_symbology(buf: &mut Vec<u8>, s: Symbology)
    ensures
        final(buf)@ == old(buf)@ + symbology_bytes(s),
{
    match s {
        Symbology::Code128 => {
            buf.push(49u8); // '1'
        },
        Symbology::Ean13 => {
            buf.push(69u8); // 'E'
            buf.push(51u8); // '3'
            buf.push(48u8); // '0'
        },
    }
    assert(buf@ =~= old(buf)@ + symbology_bytes(s));
}

fn push_barcode(
    buf: &mut Vec<u8>,
    x: u64,
    y: u64,
    symbology: Symbology,
    narrow: u32,
    wide: u32,
    height: u32,
    data: &String,
)
    ensures
        final(buf)@ == old(buf)@ + barcode_line(
            x as nat,
            y as nat,
            symbology,
            narrow as nat,
            wide as nat,
            height as nat,
            encode_utf8(data@),
        ),
{
    let ghost start = buf@;
    buf.push(66u8); // 'B'
    push_decimal(buf, x);
    push_comma_decimal(buf, y);
    buf.push(44u8); // ','
    buf.push(48u8); // '0'
    buf.push(44u8); // ','
    let ghost part1 = seq![66u8] + decimal(x as nat) + comma_decimal(y as nat) + seq![44u8, 48u8, 44u8];
    assert(buf@ =~= start + part1);
    push_symbology(buf, symbology);
    push_comma_decimal(buf, narrow as u64);
    push_comma_decimal(buf, wide as u64);
    push_comma_decimal(buf, height as u64);
    let ghost part2 = part1 + symbology_bytes(symbology) + comma_decimal(narrow as nat)
        + comma_decimal(wide as nat) + comma_decimal(height as nat);
    assert(buf@ =~= start + part2);
    buf.push(44u8); // ','
    buf.push(66u8); // 'B'
    buf.push(44u8); // ','
    buf.push(34u8); // '"'
    let ghost part3 = part2 + seq![44u8, 66u8, 44u8, 34u8];
    assert(buf@ =~= start + part3);
    push_slice(buf, data.as_str().as_bytes());
    buf.push(34u8); // '"'
    let ghost text = part3 + encode_utf8(data@) + seq![34u8];
    assert(buf@ =~= start + text);
    assert(text =~= barcode_text(
        x as nat,
        y as nat,
        symbology,
        narrow as nat,
        wide as nat,
        height as nat,
        encode_utf8(data@),
    ));
    push_crlf(buf);
}

/// Appends the bytes of one placed element.
pub fn push_element(buf: &mut Vec<u8>, e: &PlacedElement)
    ensures
        final(buf)@ == old(buf)@ + element_bytes(e@),
{
    match e {
        PlacedElement::Image { x, y, width, height, rows } => {
            push_gw_block(buf, *x, *y, *width, *height, rows.as_slice());
        },
        PlacedElement::Barcode { x, y, symbology, narrow, wide, height, data } => {
            push_barcode(buf, *x, *y, *symbology, *narrow, *wide, *height, data);
        },
    }
}

/// The complete command stream of one label: setup lines, each element in
/// order, and the command that prints one copy.
pub fn encode_job(settings: JobSettings, elements: &Vec<PlacedElement>) -> (r: Vec<u8>)
    ensures
        r@ == job_bytes(settings, views(elements@)),
{
    let mut buf: Vec<u8> = Vec::new();
    buf.push(78u8); // 'N'
    push_crlf(&mut buf);
    buf.push(113u8); // 'q'
    push_decimal(&mut buf, settings.label_width as u64);
    push_crlf(&mut buf);
    buf.push(81u8); // 'Q'
    push_decimal(&mut buf, settings.label_height as u64);
    push_comma_decimal(&mut buf, 24);
    push_crlf(&mut buf);
    buf.push(68u8); // 'D'
    push_decimal(&mut buf, settings.darkness as u64);
    push_crlf(&mut buf);
    buf.push(83u8); // 'S'
    push_decimal(&mut buf, settings.speed as u64);
    push_crlf(&mut buf);
    assert(buf@ =~= job_header(settings));
    let mut i: usize = 0;
    while i < elements.len()
        invariant
            i <= elements@.len(),
            buf@ == job_header(settings) + elements_bytes(views(elements@).subrange(0, i as int)),
        decreases elements@.len() - i,
    {
        push_element(&mut buf, &elements[i]);
        let ghost done = views(elements@).subrange(0, i + 1);
        assert(done.drop_last() =~= views(elements@).subrange(0, i as int));
        i = i + 1;
        assert(buf@ =~= job_header(settings) + elements_bytes(views(elements@).subrange(0, i as int)));
    }
    assert(views(elements@).subrange(0, i as int) =~= views(elements@));
    buf.push(80u8); // 'P'
    buf.push(49u8); // '1'
    push_crlf(&mut buf);
    assert(buf@ =~= job_bytes(settings, views(elements@)));
    buf
}

} // verus!
