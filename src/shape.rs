use vstd::prelude::*;
use vstd::string::*;
use ar_reshaper::{ArabicReshaper, ReshaperConfig};
use unicode_bidi::ParagraphBidiInfo;
use crate::text_util::push_char;

verus! {

/// The level runs of a text taken as one paragraph and one line, in visual
/// order: for each, whether its level is right-to-left, and its characters.
pub uninterp spec fn bidi_visual_runs(text: Seq<char>) -> Seq<(bool, Seq<char>)>;

/// Arabic letters of a string in their contextual (joined) forms.
pub uninterp spec fn arabic_reshaped(s: Seq<char>) -> Seq<char>;

/// Relies on `unicode_bidi::ParagraphBidiInfo::new` and
/// `ParagraphBidiInfo::visual_runs`: the level runs of the whole text, taken
/// as one paragraph and one line, in visual order, each with the direction
/// of the level at its first byte. The text must not be empty: the first
/// byte's level is read.
#[verifier::external_body]
fn visual_runs(text: &str) -> (r: Vec<(bool, String)>)
    requires
        text@.len() > 0,
    ensures
        r@.len() == bidi_visual_runs(text@).len(),
        forall|i: int|
            0 <= i < r@.len() ==> (#[trigger] r@[i]).0 == bidi_visual_runs(text@)[i].0
                && r@[i].1@ == bidi_visual_runs(text@)[i].1,
{
    let info = ParagraphBidiInfo::new(text, None);
    let (levels, runs) = info.visual_runs(0..text.len());
    runs.into_iter().map(|run| (levels[run.start].is_rtl(), text[run].to_string())).collect()
}

/// Relies on `ar_reshaper::ArabicReshaper::reshape` with the default
/// configuration: contextual letter forms; an empty string stays empty.
/// With that configuration a zero-width joiner before a ligature makes it
/// index out of bounds, so none may be present.
#[verifier::external_body]
fn reshape(s: &str) -> (r: String)
    requires
        no_zwj(s@),
    ensures
        r@ == arabic_reshaped(s@),
        s@.len() == 0 ==> r@.len() == 0,
{
    ArabicReshaper::new(ReshaperConfig::default()).reshape(s)
}

pub open spec fn no_zwj(s: Seq<char>) -> bool {
    forall|i: int| 0 <= i < s.len() ==> #[trigger] s[i] != '\u{200D}'
}

/// `s` without its zero-width joiners.
pub open spec fn without_zwj(s: Seq<char>) -> Seq<char> {
    s.filter(|c: char| c != '\u{200D}')
}

pub open spec fn is_arabic_block(c: char) -> bool {
    '\u{0600}' <= c && c <= '\u{06FF}'
}

pub open spec fn has_arabic(s: Seq<char>) -> bool {
    exists|i: int| 0 <= i < s.len() && is_arabic_block(#[trigger] s[i])
}

pub open spec fn reversed(s: Seq<char>) -> Seq<char> {
    Seq::new(s.len(), |i: int| s[s.len() - 1 - i])
}

/// What one run contributes to the visual line: a right-to-left run loses
/// its zero-width joiners (the painter has no use for them) and is reshaped,
/// and reversed too when it holds an Arabic letter; a left-to-right run is
/// kept as it is.
pub open spec fn shaped_run(rtl: bool, s: Seq<char>) -> Seq<char> {
    if rtl {
        if has_arabic(s) {
            reversed(arabic_reshaped(without_zwj(s)))
        } else {
            arabic_reshaped(without_zwj(s))
        }
    } else {
        s
    }
}

pub open spec fn join_runs(runs: Seq<(bool, Seq<char>)>) -> Seq<char>
    decreases runs.len(),
{
    if runs.len() == 0 {
        Seq::empty()
    } else {
        join_runs(runs.drop_last()) + shaped_run(runs.last().0, runs.last().1)
    }
}

/// The visual-order line of `text`, ready to be painted left to right.
pub open spec fn visual_line(text: Seq<char>) -> Seq<char> {
    if text.len() == 0 {
        Seq::empty()
    } else {
        join_runs(bidi_visual_runs(text))
    }
}

proof fn lemma_without_zwj_push(s: Seq<char>, c: char)
    ensures
        without_zwj(s.push(c)) == if c != '\u{200D}' {
            without_zwj(s).push(c)
        } else {
            without_zwj(s)
        },
{
    let f = |c: char| c != '\u{200D}';
    assert(s.push(c) =~= s + seq![c]);
    Seq::filter_distributes_over_add(s, seq![c], f);
    reveal_with_fuel(Seq::<_>::filter, 2);
    assert(seq![c].drop_last() =~= Seq::<char>::empty());
    if c != '\u{200D}' {
        assert(seq![c].filter(f) =~= seq![c]);
    } else {
        assert(seq![c].filter(f) =~= Seq::<char>::empty());
    }
    assert(without_zwj(s) + seq![c] =~= without_zwj(s).push(c));
    assert(without_zwj(s) + Seq::<char>::empty() =~= without_zwj(s));
}

/// `s` with every zero-width joiner taken out.
fn drop_zwj(s: &str) -> (r: String)
    ensures
        r@ == without_zwj(s@),
        no_zwj(r@),
{
    let n = s.unicode_len();
    let mut out = String::new();
    let mut i: usize = 0;
    while i < n
        invariant
            n == s@.len(),
            i <= n,
            out@ == without_zwj(s@.subrange(0, i as int)),
            no_zwj(out@),
        decreases n - i,
    {
        let c = s.get_char(i);
        proof {
            assert(s@.subrange(0, i + 1) =~= s@.subrange(0, i as int).push(c));
            lemma_without_zwj_push(s@.subrange(0, i as int), c);
        }
        if c != '\u{200D}' {
            push_char(&mut out, c);
        }
        i = i + 1;
    }
    assert(s@.subrange(0, n as int) =~= s@);
    out
}

fn push_str(out: &mut String, s: &str)
    ensures
        final(out)@ == old(out)@ + s@,
{
    let n = s.unicode_len();
    let mut i: usize = 0;
    while i < n
        invariant
            n == s@.len(),
            i <= n,
            out@ == old(out)@ + s@.subrange(0, i as int),
        decreases n - i,
    {
        push_char(out, s.get_char(i));
        i = i + 1;
        assert(out@ =~= old(out)@ + s@.subrange(0, i as int));
    }
    assert(s@.subrange(0, n as int) =~= s@);
}

fn push_reversed(out: &mut String, s: &str)
    ensures
        final(out)@ == old(out)@ + reversed(s@),
{
    let n = s.unicode_len();
    let mut i: usize = 0;
    while i < n
        invariant
            n == s@.len(),
            i <= n,
            out@ == old(out)@ + reversed(s@).subrange(0, i as int),
        decreases n - i,
    {
        push_char(out, s.get_char(n - 1 - i));
        i = i + 1;
        assert(out@ =~= old(out)@ + reversed(s@).subrange(0, i as int));
    }
    assert(reversed(s@).subrange(0, n as int) =~= reversed(s@));
}

fn contains_arabic(s: &str) -> (r: bool)
    ensures
        r == has_arabic(s@),
{
    let n = s.unicode_len();
    let mut i: usize = 0;
    while i < n
        invariant
            n == s@.len(),
            i <= n,
            forall|k: int| 0 <= k < i ==> !is_arabic_block(#[trigger] s@[k]),
        decreases n - i,
    {
        let c = s.get_char(i);
        if '\u{0600}' <= c && c <= '\u{06FF}' {
            return true;
        }
        i = i + 1;
    }
    false
}

/// Orders `text` for a painter that only goes left to right: the runs of
/// the bidirectional algorithm over the whole text in visual order,
/// right-to-left runs cleared of zero-width joiners, reshaped and, when they
/// hold Arabic letters, reversed; numbers keep their order.
pub fn bidi_then_shape(text: &str) -> (r: String)
    ensures
        r@ == visual_line(text@),
{
    let mut out = String::new();
    if text.unicode_len() == 0 {
        return out;
    }
    let runs = visual_runs(text);
    let ghost spec_runs = bidi_visual_runs(text@);
    let mut i: usize = 0;
    while i < runs.len()
        invariant
            text@.len() > 0,
            spec_runs == bidi_visual_runs(text@),
            runs@.len() == spec_runs.len(),
            forall|k: int|
                0 <= k < runs@.len() ==> (#[trigger] runs@[k]).0 == spec_runs[k].0 && runs@[k].1@
                    == spec_runs[k].1,
            i <= runs@.len(),
            out@ == join_runs(spec_runs.subrange(0, i as int)),
        decreases runs@.len() - i,
    {
        let (rtl, slice) = &runs[i];
        assert(runs@[i as int].0 == spec_runs[i as int].0);
        if *rtl {
            let joined = drop_zwj(slice.as_str());
            let shaped = reshape(joined.as_str());
            if contains_arabic(slice.as_str()) {
                push_reversed(&mut out, shaped.as_str());
            } else {
                push_str(&mut out, shaped.as_str());
            }
        } else {
            push_str(&mut out, slice.as_str());
        }
        assert(spec_runs.subrange(0, i + 1).drop_last() =~= spec_runs.subrange(0, i as int));
        i = i + 1;
    }
    assert(spec_runs.subrange(0, i as int) =~= spec_runs);
    out
}

/// The currency mark printed after every price.
pub open spec fn currency_mark() -> Seq<char> {
    seq!['\u{062C}', '.', '\u{0645}']
}

/// `price`, a space and the currency mark.
pub fn price_with_currency(price: &str) -> (r: String)
    ensures
        r@ == price@ + seq![' '] + currency_mark(),
{
    let mut out = String::new();
    push_str(&mut out, price);
    push_char(&mut out, ' ');
    push_char(&mut out, '\u{062C}');
    push_char(&mut out, '.');
    push_char(&mut out, '\u{0645}');
    assert(out@ =~= price@ + seq![' '] + currency_mark());
    out
}

/// `name`, four spaces, then the price with its currency mark: the text of
/// a one-line product label.
pub fn name_and_price(name: &str, price: &str) -> (r: String)
    ensures
        r@ == name@ + seq![' ', ' ', ' ', ' '] + price@ + seq![' '] + currency_mark(),
{
    let mut out = String::new();
    push_str(&mut out, name);
    let mut k: usize = 0;
    while k < 4
        invariant
            k <= 4,
            out@ == name@ + Seq::new(k as nat, |j: int| ' '),
        decreases 4 - k,
    {
        push_char(&mut out, ' ');
        k = k + 1;
        assert(out@ =~= name@ + Seq::new(k as nat, |j: int| ' '));
    }
    let tail = price_with_currency(price);
    push_str(&mut out, tail.as_str());
    assert(out@ =~= name@ + seq![' ', ' ', ' ', ' '] + price@ + seq![' '] + currency_mark());
    out
}

} // verus!
