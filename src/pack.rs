use vstd::prelude::*;
use crate::raster::Bitmap;
use crate::epl::{bytes_per_row, gw_block, gw_bytes};

verus! {

/// Packed bits are complemented before they are sent: the printer reads a
/// set bit as no ink.
pub const INVERT_BITS: bool = true;

pub open spec fn pow2(n: nat) -> nat
    decreases n,
{
    if n == 0 {
        1
    } else {
        2 * pow2((n - 1) as nat)
    }
}

/// Bit for pixel `i` of a row: 1 for ink, 0 for no ink or past the row's end.
pub open spec fn bit_at(row: Seq<bool>, i: int) -> nat {
    if 0 <= i < row.len() && row[i] {
        1
    } else {
        0
    }
}

/// Pixels `start .. start + n` read as a binary number, leftmost most significant.
pub open spec fn bits_value(row: Seq<bool>, start: int, n: nat) -> nat
    decreases n,
{
    if n == 0 {
        0
    } else {
        2 * bits_value(row, start, (n - 1) as nat) + bit_at(row, start + n - 1)
    }
}

/// Byte `j` of a packed row: pixels `8j .. 8j + 8`, bit 7 the leftmost,
/// complemented when `invert` holds.
pub open spec fn row_byte(row: Seq<bool>, j: int, invert: bool) -> u8 {
    if invert {
        (255 - bits_value(row, 8 * j, 8)) as u8
    } else {
        bits_value(row, 8 * j, 8) as u8
    }
}

pub open spec fn packed_row(row: Seq<bool>, bpr: nat, invert: bool) -> Seq<u8> {
    Seq::new(bpr, |j: int| row_byte(row, j, invert))
}

/// All rows packed and concatenated, top row first.
pub open spec fn packed_rows(rows: Seq<Seq<bool>>, bpr: nat, invert: bool) -> Seq<u8>
    decreases rows.len(),
{
    if rows.len() == 0 {
        Seq::empty()
    } else {
        packed_rows(rows.drop_last(), bpr, invert) + packed_row(rows.last(), bpr, invert)
    }
}

/// The packed form of a bitmap.
pub open spec fn packed(img: Bitmap, invert: bool) -> Seq<u8> {
    packed_rows(img@, bytes_per_row(img.width as nat), invert)
}

proof fn lemma_bits_value_bound(row: Seq<bool>, start: int, n: nat)
    ensures
        bits_value(row, start, n) < pow2(n),
    decreases n,
{
    if n > 0 {
        lemma_bits_value_bound(row, start, (n - 1) as nat);
    }
}

pub proof fn lemma_packed_rows_len(rows: Seq<Seq<bool>>, bpr: nat, invert: bool)
    ensures
        packed_rows(rows, bpr, invert).len() == rows.len() * bpr,
    decreases rows.len(),
{
    if rows.len() > 0 {
        lemma_packed_rows_len(rows.drop_last(), bpr, invert);
        assert((rows.len() - 1) * bpr + bpr == rows.len() * bpr) by (nonlinear_arith);
    }
}

fn pack_byte(row: &Vec<bool>, j: u64, invert: bool) -> (r: u8)
    requires
        j < 0x1_0000_0000,
    ensures
        r == row_byte(row@, j as int, invert),
{
    let mut acc: u8 = 0;
    let mut k: u64 = 0;
    proof {
        reveal_with_fuel(pow2, 9);
    }
    while k < 8
        invariant
            k <= 8,
            j < 0x1_0000_0000,
            acc as nat == bits_value(row@, 8 * j, k as nat),
            pow2(8) == 256,
        decreases 8 - k,
    {
        let i = 8 * j + k;
        let b: u8 = if i < row.len() as u64 && row[i as usize] {
            1
        } else {
            0
        };
        proof {
            lemma_bits_value_bound(row@, 8 * j, (k + 1) as nat);
            if k < 7 {
                lemma_pow2_mono((k + 1) as nat, 8);
            }
        }
        acc = acc * 2 + b;
        k = k + 1;
    }
    if invert {
        255 - acc
    } else {
        acc
    }
}

proof fn lemma_pow2_mono(a: nat, b: nat)
    requires
        a <= b,
    ensures
        pow2(a) <= pow2(b),
    decreases b,
{
    if a < b {
        lemma_pow2_mono(a, (b - 1) as nat);
    }
}

/// Packs a bitmap row by row: `ceil(width / 8)` bytes per row, bit 7 of
/// each byte the leftmost of its eight pixels, ink as 1; every byte
/// complemented at the end when `invert` holds.
pub fn pack_rows(img: &Bitmap, invert: bool) -> (r: Vec<u8>)
    requires
        img.wf(),
    ensures
        r@ == packed(*img, invert),
        r@.len() == img.height * bytes_per_row(img.width as nat),
{
    let bpr: u64 = (img.width as u64 + 7) / 8;
    let ghost rv = img@;
    let mut out: Vec<u8> = Vec::new();
    let mut y: usize = 0;
    while y < img.rows.len()
        invariant
            img.wf(),
            rv == img@,
            bpr == bytes_per_row(img.width as nat),
            y <= img.rows@.len(),
            out@ == packed_rows(rv.subrange(0, y as int), bpr as nat, invert),
        decreases img.rows@.len() - y,
    {
        let row = &img.rows[y];
        let ghost before = out@;
        let mut j: u64 = 0;
        while j < bpr
            invariant
                bpr < 0x1_0000_0000,
                j <= bpr,
                out@ == before + packed_row(row@, bpr as nat, invert).subrange(0, j as int),
            decreases bpr - j,
        {
            let b = pack_byte(row, j, invert);
            out.push(b);
            j = j + 1;
            assert(out@ =~= before + packed_row(row@, bpr as nat, invert).subrange(0, j as int));
        }
        proof {
            assert(packed_row(row@, bpr as nat, invert).subrange(0, bpr as int) =~= packed_row(
                row@,
                bpr as nat,
                invert,
            ));
            assert(rv.subrange(0, y + 1).drop_last() =~= rv.subrange(0, y as int));
            assert(rv.subrange(0, y + 1).last() == row@);
        }
        y = y + 1;
    }
    proof {
        assert(rv.subrange(0, y as int) =~= rv);
        lemma_packed_rows_len(rv, bpr as nat, invert);
    }
    out
}

/// Packs a bitmap for the printer (complemented when `INVERT_BITS` holds)
/// and returns it with its width and height.
pub fn image_to_row_bytes(img: &Bitmap) -> (r: (u32, u32, Vec<u8>))
    requires
        img.wf(),
    ensures
        r.0 == img.width,
        r.1 == img.height,
        r.2@ == packed(*img, INVERT_BITS),
{
    let rows = pack_rows(img, INVERT_BITS);
    (img.width, img.height, rows)
}

/// A stand-alone image block for `img` at `(x, y)`, packed for the printer
/// (complemented when `INVERT_BITS` holds).
pub fn image_to_gw(x: u32, y: u32, img: &Bitmap) -> (r: Vec<u8>)
    requires
        img.wf(),
    ensures
        r@ == gw_block(x as nat, y as nat, img.width as nat, img.height as nat, packed(*img, INVERT_BITS)),
{
    let rows = pack_rows(img, INVERT_BITS);
    let mut buf: Vec<u8> = Vec::new();
    gw_bytes(&mut buf, x, y, img.width, img.height, rows.as_slice());
    buf
}

} // verus!
