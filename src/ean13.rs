use vstd::prelude::*;
use vstd::string::*;
use crate::text_util::push_char;

verus! {

/// Why a barcode payload was refused.
#[derive(Debug, Clone, Copy, PartialEq, Eq, Structural)]
pub enum Ean13Error {
    /// After dropping non-digits, neither 12 nor 13 digits remain.
    InvalidLength,
    /// Thirteen digits whose last one is not the check digit of the first twelve.
    ChecksumMismatch,
}

pub open spec fn is_digit(c: char) -> bool {
    '0' <= c && c <= '9'
}

pub open spec fn digit_value(c: char) -> int {
    c as int - '0' as int
}

pub open spec fn all_digits(s: Seq<char>) -> bool {
    forall|i: int| 0 <= i < s.len() ==> is_digit(#[trigger] s[i])
}

/// The ASCII digits of `s`, in order; everything else dropped.
pub open spec fn digits_of(s: Seq<char>) -> Seq<char> {
    s.filter(|c: char| is_digit(c))
}

/// Sum of the first `n` digits, weight 1 at even and 3 at odd positions.
pub open spec fn weighted_sum(d: Seq<char>, n: nat) -> int
    decreases n,
{
    if n == 0 {
        0
    } else {
        let i = n - 1;
        weighted_sum(d, i as nat) + (if i % 2 == 0 { 1int } else { 3int }) * digit_value(d[i])
    }
}

/// The EAN-13 check digit of twelve payload digits.
pub open spec fn check_digit(d: Seq<char>) -> int {
    (10 - weighted_sum(d, 12) % 10) % 10
}

/// A 13-digit string whose last digit is the check digit of the first twelve.
pub open spec fn is_valid_ean13(s: Seq<char>) -> bool {
    &&& s.len() == 13
    &&& all_digits(s)
    &&& digit_value(s[12]) == check_digit(s.subrange(0, 12))
}

/// What `normalize_ean13` returns for the digits `d` that remain of its input.
pub open spec fn normalized(d: Seq<char>) -> Result<Seq<char>, Ean13Error> {
    if d.len() == 12 {
        Ok(d.push(choose|c: char| is_digit(c) && digit_value(c) == check_digit(d)))
    } else if d.len() == 13 {
        if digit_value(d[12]) == check_digit(d.subrange(0, 12)) {
            Ok(d)
        } else {
            Err(Ean13Error::ChecksumMismatch)
        }
    } else {
        Err(Ean13Error::InvalidLength)
    }
}

/// What `ensure_valid_ean13` returns for the digits `d` of its input.
pub open spec fn padded_payload(d: Seq<char>) -> Seq<char> {
    if d.len() >= 12 {
        d.subrange(0, 12)
    } else {
        d + Seq::new((12 - d.len()) as nat, |i: int| '0')
    }
}

proof fn lemma_digits_of_push(s: Seq<char>, c: char)
    ensures
        digits_of(s.push(c)) == if is_digit(c) { digits_of(s).push(c) } else { digits_of(s) },
{
    let f = |c: char| is_digit(c);
    assert(s.push(c) =~= s + seq![c]);
    Seq::filter_distributes_over_add(s, seq![c], f);
    reveal_with_fuel(Seq::<_>::filter, 2);
    assert(seq![c].drop_last() =~= Seq::<char>::empty());
    if is_digit(c) {
        assert(seq![c].filter(f) =~= seq![c]);
    } else {
        assert(seq![c].filter(f) =~= Seq::<char>::empty());
    }
    assert(digits_of(s) + seq![c] =~= digits_of(s).push(c));
    assert(digits_of(s) + Seq::<char>::empty() =~= digits_of(s));
}

proof fn lemma_digits_of_all_digits(s: Seq<char>)
    ensures
        all_digits(digits_of(s)),
{
    let f = |c: char| is_digit(c);
    assert forall|i: int| 0 <= i < digits_of(s).len() implies is_digit(#[trigger] digits_of(s)[i]) by {
        s.lemma_filter_pred(f, i);
    }
}

proof fn lemma_digits_of_identity(s: Seq<char>)
    requires
        all_digits(s),
    ensures
        digits_of(s) == s,
    decreases s.len(),
{
    if s.len() == 0 {
        assert(digits_of(s) =~= s);
    } else {
        let t = s.drop_last();
        assert(all_digits(t)) by {
            assert forall|i: int| 0 <= i < t.len() implies is_digit(#[trigger] t[i]) by {
                assert(t[i] == s[i]);
            }
        }
        lemma_digits_of_identity(t);
        assert(t.push(s.last()) =~= s);
        lemma_digits_of_push(t, s.last());
    }
}

/// Normalizing twelve digits gives a valid 13-digit code, and normalizing
/// that code again returns it unchanged.
pub proof fn lemma_normalize_round_trip(d: Seq<char>)
    requires
        d.len() == 12,
        all_digits(d),
    ensures
        normalized(d) is Ok,
        is_valid_ean13(normalized(d)->Ok_0),
        normalized(digits_of(normalized(d)->Ok_0)) == normalized(d),
{
    let w = choose|c: char| is_digit(c) && digit_value(c) == check_digit(d);
    let c = ((check_digit(d) + 48) as u8) as char;
    assert(is_digit(c) && digit_value(c) == check_digit(d));
    assert(is_digit(w) && digit_value(w) == check_digit(d));
    let t = d.push(w);
    assert(t.subrange(0, 12) =~= d);
    assert(all_digits(t)) by {
        assert forall|i: int| 0 <= i < t.len() implies is_digit(#[trigger] t[i]) by {
            if i < 12 {
                assert(t[i] == d[i]);
            }
        }
    }
    lemma_digits_of_identity(t);
}

/// Keeps the ASCII digits of `s`, in order.
fn filter_digits(s: &str) -> (r: String)
    ensures
        r@ == digits_of(s@),
{
    let n = s.unicode_len();
    let mut out = String::new();
    let mut i: usize = 0;
    while i < n
        invariant
            n == s@.len(),
            i <= n,
            out@ == digits_of(s@.subrange(0, i as int)),
        decreases n - i,
    {
        let c = s.get_char(i);
        proof {
            assert(s@.subrange(0, i + 1) =~= s@.subrange(0, i as int).push(c));
            lemma_digits_of_push(s@.subrange(0, i as int), c);
        }
        if '0' <= c && c <= '9' {
            push_char(&mut out, c);
        }
        i = i + 1;
    }
    assert(s@.subrange(0, n as int) =~= s@);
    out
}

/// The character of a decimal digit value.
fn digit_char(v: u8) -> (c: char)
    requires
        v < 10,
    ensures
        is_digit(c),
        digit_value(c) == v,
{
    let c = (v + 48) as char;
    c
}

/// The EAN-13 check digit of twelve ASCII digits, or `None` when `digits`
/// is not exactly twelve ASCII digits.
pub fn compute_ean13_checksum(digits: &str) -> (r: Option<u8>)
    ensures
        r.is_some() <==> (digits@.len() == 12 && all_digits(digits@)),
        r.is_some() ==> r.unwrap() as int == check_digit(digits@),
{
    let n = digits.unicode_len();
    if n != 12 {
        return None;
    }
    let mut sum: u32 = 0;
    let mut i: usize = 0;
    while i < 12
        invariant
            n == 12,
            digits@.len() == 12,
            i <= 12,
            all_digits(digits@.subrange(0, i as int)),
            sum as int == weighted_sum(digits@, i as nat),
            sum <= 27 * i,
        decreases 12 - i,
    {
        let c = digits.get_char(i);
        if !('0' <= c && c <= '9') {
            assert(!all_digits(digits@)) by {
                assert(!is_digit(digits@[i as int]));
            }
            return None;
        }
        let d = (c as u32) - 48;
        if i % 2 == 0 {
            sum = sum + d;
        } else {
            sum = sum + d * 3;
        }
        assert(all_digits(digits@.subrange(0, i + 1))) by {
            assert forall|k: int| 0 <= k < i + 1 implies is_digit(
                #[trigger] digits@.subrange(0, i + 1)[k],
            ) by {
                if k < i {
                    assert(digits@.subrange(0, i + 1)[k] == digits@.subrange(0, i as int)[k]);
                }
            }
        }
        i = i + 1;
    }
    assert(digits@.subrange(0, 12) =~= digits@);
    let m = sum % 10;
    let check: u32 = if m == 0 { 0 } else { 10 - m };
    Some(check as u8)
}

/// Filters `code` down to its ASCII digits, then: twelve digits get their
/// check digit appended; thirteen digits are returned unchanged when the last
/// one is the check digit of the first twelve, else `ChecksumMismatch`; any
/// other count is `InvalidLength`.
pub fn normalize_ean13(code: String) -> (r: Result<String, Ean13Error>)
    ensures
        match (r, normalized(digits_of(code@))) {
            (Ok(s), Ok(t)) => s@ == t,
            (Err(e), Err(f)) => e == f,
            _ => false,
        },
{
    let mut code = filter_digits(code.as_str());
    proof {
        lemma_digits_of_all_digits(code@);
    }
    let n = code.as_str().unicode_len();
    if n == 12 {
        let check = compute_ean13_checksum(code.as_str()).unwrap();
        let c = digit_char(check);
        let ghost d = code@;
        push_char(&mut code, c);
        proof {
            let w = choose|c: char| is_digit(c) && digit_value(c) == check_digit(d);
            assert(is_digit(w) && digit_value(w) == check_digit(d));
            assert(c == w);
        }
        Ok(code)
    } else if n == 13 {
        let prefix = code.as_str().substring_char(0, 12);
        let expected = compute_ean13_checksum(prefix).unwrap();
        let last = code.as_str().get_char(12);
        let v = (last as u32) - 48;
        if v == expected as u32 {
            Ok(code)
        } else {
            Err(Ean13Error::ChecksumMismatch)
        }
    } else {
        Err(Ean13Error::InvalidLength)
    }
}

/// The first twelve ASCII digits of `barcode`, padded on the right with `'0'`
/// when fewer than twelve are present.
pub fn ensure_valid_ean13(barcode: &str) -> (r: String)
    ensures
        r@ == padded_payload(digits_of(barcode@)),
        r@.len() == 12,
        all_digits(r@),
{
    let digits = filter_digits(barcode);
    proof {
        lemma_digits_of_all_digits(digits@);
    }
    let n = digits.as_str().unicode_len();
    let mut out = String::new();
    let mut i: usize = 0;
    while i < 12
        invariant
            n == digits@.len(),
            all_digits(digits@),
            i <= 12,
            out@.len() == i,
            forall|k: int| 0 <= k < i ==> #[trigger] out@[k] == padded_payload(digits@)[k],
        decreases 12 - i,
    {
        let c = if i < n { digits.as_str().get_char(i) } else { '0' };
        let ghost before = out@;
        push_char(&mut out, c);
        assert(forall|k: int| 0 <= k < i ==> out@[k] == before[k]);
        i = i + 1;
    }
    assert(out@ =~= padded_payload(digits@));
    out
}

} // verus!
