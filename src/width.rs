//! The display width of the escaped text of an SVG `<text>` element.

use unicode_width::UnicodeWidthStr;
use vstd::prelude::*;

use crate::text::{chars_of, find_char, find_char_from, lemma_find_char};

verus! {

/// The number of monospace cells that `unicode-width` gives to a text.
pub uninterp spec fn unicode_width_of(s: Seq<char>) -> nat;

/// Relies on `UnicodeWidthStr::width` from `unicode-width`: the display width
/// of `s[from..to]`, which depends on those characters alone.
#[verifier::external_body]
fn text_width(s: &[char], from: usize, to: usize) -> (r: usize)
    requires
        from <= to <= s@.len(),
    ensures
        r == unicode_width_of(s@.subrange(from as int, to as int)),
{
    let t: String = s[from..to].iter().collect();
    t.width()
}

/// Where the scan goes on after the character reference that starts at `k`:
/// past its `;`, or to the end of the text where it has none.
pub open spec fn after_reference(s: Seq<char>, k: int) -> int {
    let semi = find_char(s, k, ';');
    if semi < s.len() {
        semi + 1
    } else {
        s.len() as int
    }
}

/// The cells taken by the escaped text `s[i..]`: the unescaped spans count
/// by their display width, and each character reference `&...;` counts as
/// one cell, since escaping only ever stands for one narrow character.
pub open spec fn xml_width_from(s: Seq<char>, i: int) -> int
    decreases s.len() - i,
{
    let k = find_char(s, i, '&');
    if 0 <= i <= s.len() && k < s.len() {
        proof {
            lemma_find_char(s, i, '&');
            lemma_find_char(s, k, ';');
        }
        unicode_width_of(s.subrange(i, k)) + 1 + xml_width_from(s, after_reference(s, k))
    } else {
        unicode_width_of(s.subrange(i, s.len() as int)) as int
    }
}

/// The cells taken by the escaped text `s`.
pub open spec fn xml_width(s: Seq<char>) -> int {
    xml_width_from(s, 0)
}

/// The display width of an XML-escaped text, each character reference
/// counting as one cell. The sum is kept in a `u128`, which holds it for
/// every text that fits in memory.
pub fn width_xml_text(s: &str) -> (r: u128)
    ensures
        r == xml_width(s@),
{
    let chars = chars_of(s);
    width_of_chars(chars.as_slice())
}

/// The display width of the escaped text held in `v`.
pub fn width_of_chars(v: &[char]) -> (r: u128)
    ensures
        r == xml_width(v@),
{
    let n = v.len();
    let mut i: usize = 0;
    let mut total: u128 = 0;
    loop
        invariant
            n == v@.len(),
            i <= n,
            total + xml_width_from(v@, i as int) == xml_width_from(v@, 0),
            total <= i * 0x1_0000_0000_0000_0000,
        decreases n - i,
    {
        let k = find_char_from(v, i, '&');
        if k >= n {
            let w = text_width(v, i, n);
            return total + w as u128;
        }
        let w = text_width(v, i, k);
        let semi = find_char_from(v, k, ';');
        let next = if semi < n {
            semi + 1
        } else {
            n
        };
        total = total + w as u128 + 1;
        i = next;
    }
}

} // verus!
