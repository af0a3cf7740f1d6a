use vstd::prelude::*;
use crate::epl::{comma_decimal, crlf, decimal};

verus! {

/// Index of the first CRLF at or after `i`, or the length when there is none.
pub open spec fn crlf_from(s: Seq<u8>, i: int) -> int
    decreases s.len() - i,
{
    if i < 0 || i + 1 >= s.len() {
        s.len() as int
    } else if s[i] == 13 && s[i + 1] == 10 {
        i
    } else {
        crlf_from(s, i + 1)
    }
}

/// Index of the first comma at or after `i`, or the length when there is none.
pub open spec fn comma_from(s: Seq<u8>, i: int) -> int
    decreases s.len() - i,
{
    if i < 0 || i >= s.len() {
        s.len() as int
    } else if s[i] == 44 {
        i
    } else {
        comma_from(s, i + 1)
    }
}

/// Position of the comma that ends field `k` (the length for the last field).
pub open spec fn field_end(s: Seq<u8>, k: nat) -> int
    decreases k,
{
    if k == 0 {
        comma_from(s, 0)
    } else {
        comma_from(s, field_end(s, (k - 1) as nat) + 1)
    }
}

/// Field `k` of a comma-separated line.
pub open spec fn field(s: Seq<u8>, k: nat) -> Seq<u8> {
    let start = if k == 0 {
        0
    } else {
        field_end(s, (k - 1) as nat) + 1
    };
    s.subrange(start, field_end(s, k))
}

/// The number written in ASCII decimal digits.
pub open spec fn parse_decimal(d: Seq<u8>) -> nat
    decreases d.len(),
{
    if d.len() == 0 {
        0
    } else {
        parse_decimal(d.drop_last()) * 10 + (d.last() - 48) as nat
    }
}

pub open spec fn is_gw_line(line: Seq<u8>) -> bool {
    line.len() >= 2 && line[0] == 71 && line[1] == 87
}

/// Bytes of raw payload that a `GW<x>,<y>,<bytesPerRow>,<height>` header
/// declares.
pub open spec fn gw_payload_len(line: Seq<u8>) -> nat {
    let body = line.subrange(2, line.len() as int);
    parse_decimal(field(body, 2)) * parse_decimal(field(body, 3))
}

/// Reads a command stream as the printer does: each line runs up to its
/// CRLF; after a `GW` line, its declared payload and the CRLF after it are
/// skipped. An unterminated tail is read as a last line.
#[verifier::opaque]
pub open spec fn read_lines(s: Seq<u8>) -> Seq<Seq<u8>>
    decreases s.len(),
{
    if s.len() == 0 {
        Seq::empty()
    } else {
        let k = crlf_from(s, 0);
        if k < 0 || k >= s.len() {
            seq![s]
        } else {
            let skip: int = if is_gw_line(s.subrange(0, k)) {
                gw_payload_len(s.subrange(0, k)) as int + 2
            } else {
                0
            };
            let next = if k + 2 + skip > s.len() {
                s.len() as int
            } else {
                k + 2 + skip
            };
            seq![s.subrange(0, k)] + read_lines(s.subrange(next, s.len() as int))
        }
    }
}

pub open spec fn no_cr(t: Seq<u8>) -> bool {
    forall|i: int| 0 <= i < t.len() ==> #[trigger] t[i] != 13
}

pub open spec fn no_comma(t: Seq<u8>) -> bool {
    forall|i: int| 0 <= i < t.len() ==> #[trigger] t[i] != 44
}

pub open spec fn all_decimal_digits(t: Seq<u8>) -> bool {
    forall|i: int| 0 <= i < t.len() ==> 48 <= #[trigger] t[i] <= 57
}

pub proof fn lemma_decimal_digits(n: nat)
    ensures
        all_decimal_digits(decimal(n)),
        decimal(n).len() >= 1,
        parse_decimal(decimal(n)) == n,
    decreases n,
{
    if n >= 10 {
        lemma_decimal_digits(n / 10);
        let d = decimal(n);
        assert(d.drop_last() =~= decimal(n / 10));
        assert(d.last() == (48 + n % 10) as u8);
        assert(((48 + n % 10) as u8) as int == 48 + n % 10);
        assert(parse_decimal(d) == (n / 10) * 10 + n % 10);
    } else {
        let d = decimal(n);
        assert(d.drop_last() =~= Seq::<u8>::empty());
        assert(d.last() == (48 + n) as u8);
        assert(parse_decimal(d.drop_last()) == 0);
    }
}

proof fn lemma_crlf_from(t: Seq<u8>, rest: Seq<u8>, i: int)
    requires
        0 <= i <= t.len(),
        no_cr(t),
    ensures
        crlf_from(t + crlf() + rest, i) == t.len(),
    decreases t.len() - i,
{
    let s = t + crlf() + rest;
    if i < t.len() {
        assert(s[i] == t[i]);
        lemma_crlf_from(t, rest, i + 1);
    } else {
        assert(s[i] == 13 && s[i + 1] == 10);
    }
}

proof fn lemma_comma_from(s: Seq<u8>, i: int, j: int)
    requires
        0 <= i <= j <= s.len(),
        forall|k: int| i <= k < j ==> #[trigger] s[k] != 44,
        j == s.len() || s[j] == 44,
    ensures
        comma_from(s, i) == j,
    decreases j - i,
{
    if i < j {
        lemma_comma_from(s, i + 1, j);
    }
}

/// The reader on nothing reads no line.
pub proof fn lemma_read_empty()
    ensures
        read_lines(Seq::empty()) == Seq::<Seq<u8>>::empty(),
{
    reveal(read_lines);
}

/// One step of the reader: a line without CR that is no image header, and
/// its CRLF, read as that line followed by whatever `rest` reads as.
pub proof fn lemma_read_plain_line(line: Seq<u8>, rest: Seq<u8>)
    requires
        no_cr(line),
        !is_gw_line(line),
    ensures
        read_lines(line + crlf() + rest) == seq![line] + read_lines(rest),
{
    reveal(read_lines);
    let s = line + crlf() + rest;
    lemma_crlf_from(line, rest, 0);
    let k = line.len() as int;
    assert(s.subrange(0, k) =~= line);
    assert(s.subrange(k + 2, s.len() as int) =~= rest);
}

/// One step of the reader: an image header without CR, its CRLF, exactly
/// its declared payload and a CRLF, read as the header line followed by
/// whatever `rest` reads as.
pub proof fn lemma_read_image_line(line: Seq<u8>, payload: Seq<u8>, rest: Seq<u8>)
    requires
        no_cr(line),
        is_gw_line(line),
        payload.len() == gw_payload_len(line),
    ensures
        read_lines(line + crlf() + payload + crlf() + rest) == seq![line] + read_lines(rest),
{
    reveal(read_lines);
    let s = line + crlf() + payload + crlf() + rest;
    let tail = payload + crlf() + rest;
    assert(s =~= line + crlf() + tail);
    lemma_crlf_from(line, tail, 0);
    let k = line.len() as int;
    assert(s.subrange(0, k) =~= line);
    assert(s.subrange(k + 2 + payload.len() + 2, s.len() as int) =~= rest);
}

/// The fields of `<a>,<b>,<c>,<d>` written in decimal are those numbers.
pub proof fn lemma_four_fields(a: nat, b: nat, c: nat, d: nat)
    ensures
        ({
            let body = decimal(a) + comma_decimal(b) + comma_decimal(c) + comma_decimal(d);
            &&& parse_decimal(field(body, 2)) == c
            &&& parse_decimal(field(body, 3)) == d
            &&& no_cr(body)
        }),
{
    lemma_decimal_digits(a);
    lemma_decimal_digits(b);
    lemma_decimal_digits(c);
    lemma_decimal_digits(d);
    let da = decimal(a);
    let db = decimal(b);
    let dc = decimal(c);
    let dd = decimal(d);
    let body = decimal(a) + comma_decimal(b) + comma_decimal(c) + comma_decimal(d);
    assert(body =~= da + seq![44u8] + db + seq![44u8] + dc + seq![44u8] + dd);
    let e0 = da.len() as int;
    let e1 = e0 + 1 + db.len();
    let e2 = e1 + 1 + dc.len();
    let e3 = body.len() as int;
    assert forall|k: int| 0 <= k < body.len() implies #[trigger] body[k] != 13 && (body[k] == 44
        <==> (k == e0 || k == e1 || k == e2)) by {
        if k < e0 {
            assert(body[k] == da[k]);
        } else if k == e0 {
        } else if k < e1 {
            assert(body[k] == db[k - e0 - 1]);
        } else if k == e1 {
        } else if k < e2 {
            assert(body[k] == dc[k - e1 - 1]);
        } else if k == e2 {
        } else {
            assert(body[k] == dd[k - e2 - 1]);
        }
    }
    lemma_comma_from(body, 0, e0);
    lemma_comma_from(body, e0 + 1, e1);
    lemma_comma_from(body, e1 + 1, e2);
    lemma_comma_from(body, e2 + 1, e3);
    assert(field_end(body, 0) == e0);
    assert(field_end(body, 1) == e1);
    assert(field_end(body, 2) == e2);
    assert(field_end(body, 3) == e3);
    assert(field(body, 2) =~= dc);
    assert(field(body, 3) =~= dd);
}

} // verus!
