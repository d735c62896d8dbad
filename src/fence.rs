//! Recognising the lines that open or close a fenced block.
//!
//! A fence line holds at most three spaces, then a run of at least three
//! backticks or at least three tildes, then an optional info string. The
//! indentation and the run together form the block's marker; the info
//! string, trimmed of white space at both ends, tells what the block holds.

use vstd::prelude::*;

use crate::text::{chars_of, push_chars};

verus! {

/// The Unicode `White_Space` characters.
pub open spec fn is_white_space(c: char) -> bool {
    let u = c as u32;
    ||| 0x9 <= u <= 0xD
    ||| u == 0x20 || u == 0x85 || u == 0xA0 || u == 0x1680
    ||| 0x2000 <= u <= 0x200A
    ||| u == 0x2028 || u == 0x2029 || u == 0x202F || u == 0x205F || u == 0x3000
}

/// Whether `c` is white space.
pub fn white_space(c: char) -> (r: bool)
    ensures
        r == is_white_space(c),
{
    let u = c as u32;
    (0x9 <= u && u <= 0xD) || u == 0x20 || u == 0x85 || u == 0xA0 || u == 0x1680 || (0x2000 <= u
        && u <= 0x200A) || u == 0x2028 || u == 0x2029 || u == 0x202F || u == 0x205F || u == 0x3000
}

/// The end of the run of `c` that starts at `i`.
pub open spec fn run_end(s: Seq<char>, i: int, c: char) -> int
    decreases s.len() - i,
{
    if 0 <= i < s.len() && s[i] == c {
        run_end(s, i + 1, c)
    } else {
        i
    }
}

/// The first position at or after `i` that holds no white space.
pub open spec fn skip_white(s: Seq<char>, i: int) -> int
    decreases s.len() - i,
{
    if 0 <= i < s.len() && is_white_space(s[i]) {
        skip_white(s, i + 1)
    } else {
        i
    }
}

/// The end of `s[lo..j]` once the white space at its end is dropped.
pub open spec fn trim_end(s: Seq<char>, lo: int, j: int) -> int
    decreases j - lo,
{
    if lo < j <= s.len() && is_white_space(s[j - 1]) {
        trim_end(s, lo, j - 1)
    } else {
        j
    }
}

/// The number of spaces that a line starts with.
pub open spec fn indent_of(line: Seq<char>) -> int {
    run_end(line, 0, ' ')
}

/// Whether `line` is a fence line.
pub open spec fn is_fence_line(line: Seq<char>) -> bool {
    let k = indent_of(line);
    &&& k <= 3
    &&& k < line.len()
    &&& line[k] == '`' || line[k] == '~'
    &&& run_end(line, k, line[k]) >= k + 3
}

/// Where the marker of a fence line ends: after the indentation and the whole run.
pub open spec fn marker_end(line: Seq<char>) -> int {
    run_end(line, indent_of(line), line[indent_of(line)])
}

/// The marker of a fence line: the text that closes the block it opens.
pub open spec fn fence_marker(line: Seq<char>) -> Seq<char> {
    line.subrange(0, marker_end(line))
}

/// The info string of a fence line: what follows the marker, trimmed.
pub open spec fn fence_info(line: Seq<char>) -> Seq<char> {
    let a = skip_white(line, marker_end(line));
    line.subrange(a, trim_end(line, a, line.len() as int))
}

/// The language tag of diagram blocks.
pub open spec fn diagram_tag() -> Seq<char> {
    seq!['s', 'v', 'g', 'b', 'o', 'b']
}

/// Whether an info string marks a diagram block: it is the tag alone, or the
/// tag and a comma followed by an optional label.
pub open spec fn is_diagram_info(info: Seq<char>) -> bool {
    ||| info == diagram_tag()
    ||| info.len() >= 7 && info.subrange(0, 7) == diagram_tag().push(',')
}

/// Finds where the run of `c` that starts at `i` ends.
pub fn find_run_end(s: &[char], i: usize, c: char) -> (r: usize)
    requires
        i <= s@.len(),
    ensures
        r == run_end(s@, i as int, c),
        i <= r <= s@.len(),
{
    let mut j = i;
    while j < s.len() && s[j] == c
        invariant
            i <= j <= s@.len(),
            run_end(s@, j as int, c) == run_end(s@, i as int, c),
        decreases s@.len() - j,
    {
        j = j + 1;
    }
    j
}

/// Finds the first position at or after `i` that holds no white space.
pub fn find_skip_white(s: &[char], i: usize) -> (r: usize)
    requires
        i <= s@.len(),
    ensures
        r == skip_white(s@, i as int),
        i <= r <= s@.len(),
{
    let mut j = i;
    while j < s.len() && white_space(s[j])
        invariant
            i <= j <= s@.len(),
            skip_white(s@, j as int) == skip_white(s@, i as int),
        decreases s@.len() - j,
    {
        j = j + 1;
    }
    j
}

/// Finds where `s[lo..j]` ends once the white space at its end is dropped.
pub fn find_trim_end(s: &[char], lo: usize, j: usize) -> (r: usize)
    requires
        lo <= j <= s@.len(),
    ensures
        r == trim_end(s@, lo as int, j as int),
        lo <= r <= j,
{
    let mut k = j;
    while lo < k && white_space(s[k - 1])
        invariant
            lo <= k <= j <= s@.len(),
            trim_end(s@, lo as int, k as int) == trim_end(s@, lo as int, j as int),
        decreases k - lo,
    {
        k = k - 1;
    }
    k
}

/// Whether `s[a..b]` marks a diagram block.
pub fn diagram_info(s: &[char], a: usize, b: usize) -> (r: bool)
    requires
        a <= b <= s@.len(),
    ensures
        r == is_diagram_info(s@.subrange(a as int, b as int)),
{
    let ghost info = s@.subrange(a as int, b as int);
    if b - a < 6 {
        assert(diagram_tag().len() == 6);
        assert(info.len() != diagram_tag().len());
        return false;
    }
    let tag_ok = s[a] == 's' && s[a + 1] == 'v' && s[a + 2] == 'g' && s[a + 3] == 'b' && s[a + 4]
        == 'o' && s[a + 5] == 'b';
    if !tag_ok {
        proof {
            let t = diagram_tag();
            let tc = t.push(',');
            assert(t[0] == 's' && t[1] == 'v' && t[2] == 'g' && t[3] == 'b' && t[4] == 'o' && t[5]
                == 'b');
            assert(tc[0] == 's' && tc[1] == 'v' && tc[2] == 'g' && tc[3] == 'b' && tc[4] == 'o'
                && tc[5] == 'b');
            if info.len() >= 7 {
                let p = info.subrange(0, 7);
                assert(p[0] == info[0] && p[1] == info[1] && p[2] == info[2] && p[3] == info[3]
                    && p[4] == info[4] && p[5] == info[5]);
            }
        }
        return false;
    }
    if b - a == 6 {
        assert(info =~= diagram_tag());
        return true;
    }
    let comma = s[a + 6] == ',';
    if comma {
        assert(info.subrange(0, 7) =~= diagram_tag().push(','));
    } else {
        assert(info.subrange(0, 7)[6] != diagram_tag().push(',')[6]);
    }
    comma
}

/// What a fence line tells: where its marker ends and whether it opens a
/// diagram block.
pub struct FenceLine {
    pub marker_end: usize,
    pub diagram: bool,
}

/// Reads `line` as a fence line, if it is one.
pub fn parse_fence(line: &[char]) -> (r: Option<FenceLine>)
    ensures
        r is Some <==> is_fence_line(line@),
        r matches Some(f) ==> f.marker_end == marker_end(line@) && f.marker_end <= line@.len()
            && f.diagram == is_diagram_info(fence_info(line@)),
{
    let k = find_run_end(line, 0, ' ');
    if k > 3 || k >= line.len() {
        return None;
    }
    let c = line[k];
    if c != '`' && c != '~' {
        return None;
    }
    let m = find_run_end(line, k, c);
    if m - k < 3 {
        return None;
    }
    let a = find_skip_white(line, m);
    let b = find_trim_end(line, a, line.len());
    let diagram = diagram_info(line, a, b);
    Some(FenceLine { marker_end: m, diagram })
}

/// The end of the prefix that `line[i..]` and `indent[i..]` share, made of
/// spaces and tabs only.
pub open spec fn common_indent(line: Seq<char>, indent: Seq<char>, i: int) -> int
    decreases line.len() - i,
{
    if 0 <= i < line.len() && i < indent.len() && line[i] == indent[i] && (indent[i] == ' '
        || indent[i] == '\t') {
        common_indent(line, indent, i + 1)
    } else {
        i
    }
}

/// `line` without the part of its indentation that `indent` shares.
pub open spec fn dedent(line: Seq<char>, indent: Seq<char>) -> Seq<char> {
    line.subrange(common_indent(line, indent, 0), line.len() as int)
}

/// The number of leading characters of `line` that the indentation of
/// `indent` accounts for.
pub fn indent_len(line: &[char], indent: &[char]) -> (r: usize)
    ensures
        r == common_indent(line@, indent@, 0),
        r <= line@.len(),
{
    let mut i: usize = 0;
    while i < line.len() && i < indent.len() && line[i] == indent[i] && (indent[i] == ' '
        || indent[i] == '\t')
        invariant
            i <= line@.len(),
            common_indent(line@, indent@, i as int) == common_indent(line@, indent@, 0),
        decreases line@.len() - i,
    {
        i = i + 1;
    }
    i
}

/// Removes from `line` the indentation that it shares with `indent`, one
/// space or tab at a time, and never more than that.
pub fn remove_indent(line: &str, indent: &str) -> (r: String)
    ensures
        r@ == dedent(line@, indent@),
{
    let l = chars_of(line);
    let d = chars_of(indent);
    let k = indent_len(l.as_slice(), d.as_slice());
    let mut r = String::new();
    push_chars(&mut r, l.as_slice(), k, l.len());
    assert(r@ =~= dedent(line@, indent@));
    r
}

proof fn lemma_run_end_bounds(s: Seq<char>, j: int, c: char)
    requires
        0 <= j,
    ensures
        j <= run_end(s, j, c),
        j <= s.len() ==> run_end(s, j, c) <= s.len(),
        forall|k: int| j <= k < run_end(s, j, c) ==> s[k] == c,
    decreases s.len() - j,
{
    if j < s.len() && s[j] == c {
        lemma_run_end_bounds(s, j + 1, c);
    }
}

/// A run that ends by position `m` ends at the same place in `s[..m]`.
proof fn lemma_run_end_prefix(s: Seq<char>, m: int, j: int, c: char)
    requires
        0 <= j,
        run_end(s, j, c) <= m <= s.len(),
    ensures
        run_end(s.subrange(0, m), j, c) == run_end(s, j, c),
    decreases s.len() - j,
{
    lemma_run_end_bounds(s, j, c);
    if j < s.len() && s[j] == c {
        lemma_run_end_prefix(s, m, j + 1, c);
    }
}

/// The marker of a fence line is a fence line itself.
pub proof fn lemma_marker_is_fence_line(line: Seq<char>)
    requires
        is_fence_line(line),
    ensures
        is_fence_line(fence_marker(line)),
        fence_marker(line).len() == marker_end(line),
        marker_end(line) <= line.len(),
{
    let k = indent_of(line);
    let c = line[k];
    let m = marker_end(line);
    lemma_run_end_bounds(line, 0, ' ');
    lemma_run_end_bounds(line, k, c);
    lemma_run_end_prefix(line, m, 0, ' ');
    lemma_run_end_prefix(line, m, k, c);
}

} // verus!
