//! Fixing the horizontal layout of the text in a generated SVG document.
//!
//! Each `<text ...>...</text>` element gets a `textLength` attribute equal to
//! its display width in cells times the width of a cell, so that a viewer
//! stretches or squeezes the glyphs onto the monospace grid the diagram was
//! drawn on, whatever font it picks.

use vstd::prelude::*;

use crate::text::{
    chars_of, find_char, find_char_from, lemma_find_char, push_char, push_chars,
};
use crate::width::{width_of_chars, xml_width};

verus! {

/// The width of one grid cell, in SVG user units.
pub const CELL_WIDTH: u16 = 8;

/// The decimal digit for `d`, which is below ten.
pub open spec fn digit_char(d: int) -> char {
    if d == 0 {
        '0'
    } else if d == 1 {
        '1'
    } else if d == 2 {
        '2'
    } else if d == 3 {
        '3'
    } else if d == 4 {
        '4'
    } else if d == 5 {
        '5'
    } else if d == 6 {
        '6'
    } else if d == 7 {
        '7'
    } else if d == 8 {
        '8'
    } else {
        '9'
    }
}

/// The decimal numeral of `n`, without leading zeros.
pub open spec fn decimal(n: nat) -> Seq<char>
    decreases n,
{
    if n < 10 {
        seq![digit_char(n as int)]
    } else {
        decimal(n / 10).push(digit_char((n % 10) as int))
    }
}

fn digit(d: u128) -> (c: char)
    requires
        d < 10,
    ensures
        c == digit_char(d as int),
{
    if d == 0 {
        '0'
    } else if d == 1 {
        '1'
    } else if d == 2 {
        '2'
    } else if d == 3 {
        '3'
    } else if d == 4 {
        '4'
    } else if d == 5 {
        '5'
    } else if d == 6 {
        '6'
    } else if d == 7 {
        '7'
    } else if d == 8 {
        '8'
    } else {
        '9'
    }
}

/// Appends the decimal numeral of `n`.
pub fn push_decimal(out: &mut String, n: u128)
    ensures
        final(out)@ == old(out)@ + decimal(n as nat),
    decreases n,
{
    if n >= 10 {
        push_decimal(out, n / 10);
    }
    push_char(out, digit(n % 10));
    assert(final(out)@ =~= old(out)@ + decimal(n as nat));
}

/// Appends the decimal numeral of `CELL_WIDTH * w`, a product that may not
/// fit in a `u128`: its last digit is then worked out apart from the rest.
pub fn push_text_length(out: &mut String, w: u128)
    ensures
        final(out)@ == old(out)@ + decimal((CELL_WIDTH * w) as nat),
{
    let m = CELL_WIDTH as u128;
    if w <= u128::MAX / m {
        push_decimal(out, w * m);
    } else {
        let q = w / 10;
        let r = w % 10;
        let hi = m * q + (m * r) / 10;
        let lo = (m * r) % 10;
        assert(m * w == 10 * hi + lo && hi >= 10 && lo < 10) by (nonlinear_arith)
            requires
                1 <= m <= 10,
                w == 10 * q + r,
                0 <= r < 10,
                hi == m * q + (m * r) / 10,
                lo == (m * r) % 10,
                w > u128::MAX / m,
        ;
        assert((m * w) / 10 == hi && (m * w) % 10 == lo) by (nonlinear_arith)
            requires
                m * w == 10 * hi + lo,
                0 <= lo < 10,
        ;
        push_decimal(out, hi);
        push_char(out, digit(lo));
        assert(final(out)@ =~= old(out)@ + decimal((CELL_WIDTH * w) as nat));
    }
}

/// The tag that opens a text element.
pub open spec fn open_tag() -> Seq<char> {
    seq!['<', 't', 'e', 'x', 't']
}

/// The tag that closes a text element.
pub open spec fn close_tag() -> Seq<char> {
    seq!['<', '/', 't', 'e', 'x', 't', '>']
}

/// Where the open tag of the element at `i` ends: its first `>`.
pub open spec fn attrs_end(s: Seq<char>, i: int) -> int {
    find_char(s, i + 5, '>')
}

/// Where the text of the element at `i` ends: the first `<` after its open tag.
pub open spec fn text_end(s: Seq<char>, i: int) -> int {
    find_char(s, attrs_end(s, i) + 1, '<')
}

/// Whether a text element starts at `i`: `<text`, attributes up to the first
/// `>`, text up to the next `<`, and `</text>` right there.
pub open spec fn text_element_at(s: Seq<char>, i: int) -> bool {
    &&& 0 <= i
    &&& i + 5 <= s.len()
    &&& s.subrange(i, i + 5) == open_tag()
    &&& attrs_end(s, i) < s.len()
    &&& text_end(s, i) + 7 <= s.len()
    &&& s.subrange(text_end(s, i), text_end(s, i) + 7) == close_tag()
}

/// The element at `i` with its `textLength` set: the attribute goes in just
/// before the `>` of the open tag.
pub open spec fn element_with_length(s: Seq<char>, i: int) -> Seq<char> {
    let q = attrs_end(s, i);
    let e = text_end(s, i);
    s.subrange(i, q) + " textLength=\""@ + decimal((CELL_WIDTH * xml_width(s.subrange(q + 1, e))) as nat)
        + "\""@ + s.subrange(q, e + 7)
}

/// A text element lies within the document, its parts in order.
pub proof fn lemma_text_element_bounds(s: Seq<char>, i: int)
    requires
        text_element_at(s, i),
    ensures
        i + 5 <= attrs_end(s, i) < text_end(s, i),
        text_end(s, i) + 7 <= s.len(),
{
    lemma_find_char(s, i + 5, '>');
    lemma_find_char(s, attrs_end(s, i) + 1, '<');
}

/// `s[i..]` with the length of every text element set, elements found from
/// left to right without overlap.
pub open spec fn text_lengths_set_from(s: Seq<char>, i: int) -> Seq<char>
    decreases s.len() - i,
{
    if 0 <= i < s.len() {
        if text_element_at(s, i) {
            proof {
                lemma_text_element_bounds(s, i);
            }
            element_with_length(s, i) + text_lengths_set_from(s, text_end(s, i) + 7)
        } else {
            seq![s[i]] + text_lengths_set_from(s, i + 1)
        }
    } else {
        Seq::empty()
    }
}

/// `s` with the length of every text element set.
pub open spec fn text_lengths_set(s: Seq<char>) -> Seq<char> {
    text_lengths_set_from(s, 0)
}

/// Whether `s[i..]` starts with `pat`.
fn matches_at(s: &[char], i: usize, pat: &[char]) -> (r: bool)
    requires
        i <= s@.len(),
    ensures
        r == (i + pat@.len() <= s@.len() && s@.subrange(i as int, i + pat@.len()) == pat@),
{
    let n = s.len();
    if n - i < pat.len() {
        return false;
    }
    let mut j: usize = 0;
    while j < pat.len()
        invariant
            n == s@.len(),
            i + pat@.len() <= n,
            j <= pat@.len(),
            forall|k: int| 0 <= k < j ==> s@[i + k] == pat@[k],
        decreases pat@.len() - j,
    {
        if s[i + j] != pat[j] {
            assert(s@.subrange(i as int, i + pat@.len())[j as int] != pat@[j as int]);
            return false;
        }
        j = j + 1;
    }
    assert(s@.subrange(i as int, i + pat@.len()) =~= pat@);
    true
}

/// Finds the text element at `i`, if there is one, with the end of its
/// attributes and of its text.
fn text_element(s: &[char], i: usize, open: &Vec<char>, close: &Vec<char>) -> (r: Option<
    (usize, usize),
>)
    requires
        i <= s@.len(),
        open@ == open_tag(),
        close@ == close_tag(),
    ensures
        r is Some <==> text_element_at(s@, i as int),
        r matches Some((q, e)) ==> q == attrs_end(s@, i as int) && e == text_end(s@, i as int),
{
    let n = s.len();
    if !matches_at(s, i, open.as_slice()) {
        return None;
    }
    assert(i + 5 <= n);
    let q = find_char_from(s, i + 5, '>');
    if q >= s.len() {
        return None;
    }
    let e = find_char_from(s, q + 1, '<');
    if !matches_at(s, e, close.as_slice()) {
        return None;
    }
    Some((q, e))
}

/// Sets the `textLength` of every text element of an SVG document.
pub fn set_text_lengths(svg: &str) -> (r: String)
    ensures
        r@ == text_lengths_set(svg@),
{
    let chars = chars_of(svg);
    let v = chars.as_slice();
    let n = v.len();
    let open = vec!['<', 't', 'e', 'x', 't'];
    let close = vec!['<', '/', 't', 'e', 'x', 't', '>'];
    let mut out = String::new();
    let mut i: usize = 0;
    while i < n
        invariant
            n == v@.len(),
            v@ == svg@,
            open@ == open_tag(),
            close@ == close_tag(),
            i <= n,
            out@ + text_lengths_set_from(v@, i as int) == text_lengths_set(v@),
        decreases n - i,
    {
        let ghost before = out@;
        match text_element(v, i, &open, &close) {
            Some((q, e)) => {
                proof {
                    lemma_text_element_bounds(v@, i as int);
                }
                push_chars(&mut out, v, i, q);
                out.append(" textLength=\"");
                let w = width_of_chars(&v[q + 1..e]);
                push_text_length(&mut out, w);
                out.append("\"");
                push_chars(&mut out, v, q, e + 7);
                assert(out@ =~= before + element_with_length(v@, i as int));
                i = e + 7;
            },
            None => {
                push_char(&mut out, v[i]);
                assert(out@ =~= before + seq![v@[i as int]]);
                i = i + 1;
            },
        }
    }
    out
}

} // verus!
