//! Facts about the scanner, proved from its model: what happens to a
//! fragment without fences, and to a diagram block that a fragment holds
//! whole.

use proc_macro2::Span;
use vstd::prelude::*;

use crate::embed::diagram_markup;
use crate::fence::{
    dedent, fence_info, fence_marker, is_diagram_info, is_fence_line, lemma_marker_is_fence_line,
};
use crate::scanner::{
    capture_source, is_capturing, line_step, scan_from, step_result, well_formed, LineAction,
    OpenBlock, Outcome,
};
use crate::text::{find_char, lemma_find_char};

verus! {

/// Whether a line of `s` starts at `i`.
pub open spec fn is_line_start(s: Seq<char>, i: int) -> bool {
    0 <= i <= s.len() && (i == 0 || s[i - 1] == '\n')
}

/// The line of `s` that starts at `i`, without its `\n`.
pub open spec fn line_at(s: Seq<char>, i: int) -> Seq<char> {
    s.subrange(i, find_char(s, i, '\n'))
}

/// Whether no line of `s` is a fence line.
pub open spec fn has_no_fence_line(s: Seq<char>) -> bool {
    forall|i: int| is_line_start(s, i) ==> !is_fence_line(#[trigger] line_at(s, i))
}

proof fn lemma_scan_passthrough(st: Option<OpenBlock>, s: Seq<char>, i: int, pos: Span)
    requires
        well_formed(st),
        !is_capturing(st),
        has_no_fence_line(s),
        is_line_start(s, i),
    ensures
        scan_from(st, s, i, pos).state == st,
        !scan_from(st, s, i, pos).dropped,
        !scan_from(st, s, i, pos).emitted,
        scan_from(st, s, i, pos).out == s.subrange(i, s.len() as int),
    decreases s.len() - i,
{
    let e = find_char(s, i, '\n');
    lemma_find_char(s, i, '\n');
    assert(!is_fence_line(line_at(s, i)));
    let line = s.subrange(i, e);
    assert(line_step(st, line, pos) == (st, LineAction::Keep));
    if e < s.len() {
        lemma_scan_passthrough(st, s, e + 1, pos);
        assert(s.subrange(i, e + 1) + s.subrange(e + 1, s.len() as int) =~= s.subrange(
            i,
            s.len() as int,
        ));
    }
}

/// A fragment in which no line is a fence line passes through unchanged,
/// and leaves the state as it was, whenever no diagram block is open: with
/// no block open, and also inside an ordinary fenced block. So `step` on such
/// a fragment gives `Passthrough` again and again.
pub proof fn lemma_passthrough_without_fences(st: Option<OpenBlock>, s: Seq<char>, pos: Span)
    requires
        well_formed(st),
        !is_capturing(st),
        has_no_fence_line(s),
    ensures
        step_result(st, s, pos) == (st, Outcome::Passthrough),
        scan_from(st, s, 0, pos).out == s,
{
    lemma_scan_passthrough(st, s, 0, pos);
    assert(s.subrange(0, s.len() as int) =~= s);
}

/// The capture that the lines of `body[i..]` add to a diagram block whose
/// marker is `fence`: each line without the fence's indentation, ending
/// with a newline.
pub open spec fn capture_of(body: Seq<char>, i: int, fence: Seq<char>) -> Seq<char>
    decreases body.len() - i,
{
    if 0 <= i < body.len() {
        let e = find_char(body, i, '\n');
        proof {
            lemma_find_char(body, i, '\n');
        }
        let line = dedent(body.subrange(i, e), fence).push('\n');
        if e < body.len() {
            line + capture_of(body, e + 1, fence)
        } else {
            line
        }
    } else {
        Seq::empty()
    }
}

/// Whether `body` is made of whole lines, none of which equals `fence`.
pub open spec fn is_block_body(body: Seq<char>, fence: Seq<char>) -> bool {
    &&& body.len() == 0 || body.last() == '\n'
    &&& forall|j: int| is_line_start(body, j) && j < body.len() ==> #[trigger] line_at(body, j) != fence
}

/// Whether `s` holds no newline.
pub open spec fn is_single_line(s: Seq<char>) -> bool {
    forall|k: int| 0 <= k < s.len() ==> s[k] != '\n'
}

proof fn lemma_find_char_after(a: Seq<char>, b: Seq<char>, j: int, c: char)
    requires
        0 <= j <= b.len(),
    ensures
        find_char(a + b, a.len() + j, c) == a.len() + find_char(b, j, c),
    decreases b.len() - j,
{
    if j < b.len() {
        assert((a + b)[a.len() + j] == b[j]);
        if b[j] != c {
            lemma_find_char_after(a, b, j + 1, c);
        }
    }
}

proof fn lemma_find_char_before(a: Seq<char>, b: Seq<char>, j: int, c: char)
    requires
        0 <= j <= a.len(),
        find_char(a, j, c) < a.len(),
    ensures
        find_char(a + b, j, c) == find_char(a, j, c),
    decreases a.len() - j,
{
    assert((a + b)[j] == a[j]);
    if a[j] != c {
        lemma_find_char_before(a, b, j + 1, c);
    }
}

proof fn lemma_find_char_skip(s: Seq<char>, j: int, k: int, c: char)
    requires
        0 <= j <= k <= s.len(),
        forall|m: int| j <= m < k ==> s[m] != c,
    ensures
        find_char(s, j, c) == find_char(s, k, c),
    decreases k - j,
{
    if j < k {
        lemma_find_char_skip(s, j + 1, k, c);
    }
}

proof fn lemma_single_line_find(s: Seq<char>, j: int)
    requires
        is_single_line(s),
        0 <= j <= s.len(),
    ensures
        find_char(s, j, '\n') == s.len(),
    decreases s.len() - j,
{
    if j < s.len() {
        lemma_single_line_find(s, j + 1);
    }
}

/// Reading the lines of a block body only adds them to the capture.
proof fn lemma_scan_body(
    head: Seq<char>,
    body: Seq<char>,
    tail: Seq<char>,
    j: int,
    b: OpenBlock,
    c: Seq<char>,
    pos: Span,
)
    requires
        is_block_body(body, b.fence),
        is_line_start(body, j),
        b.capture == Some(c),
    ensures
        ({
            let s = head + body + tail;
            let done = OpenBlock {
                fence: b.fence,
                capture: Some(c + capture_of(body, j, b.fence)),
                start: b.start,
            };
            let from = scan_from(Some(b), s, head.len() + j, pos);
            let to = scan_from(Some(done), s, (head.len() + body.len()) as int, pos);
            &&& from.state == to.state
            &&& from.out == to.out
            &&& from.kept == to.kept
            &&& from.emitted == to.emitted
        }),
    decreases body.len() - j,
{
    let s = head + body + tail;
    let i = head.len() + j;
    if j < body.len() {
        let e = find_char(body, j, '\n');
        lemma_find_char(body, j, '\n');
        assert(body[body.len() - 1] == '\n');
        assert(e < body.len());
        lemma_find_char_before(body, tail, j, '\n');
        lemma_find_char_after(head, body + tail, j, '\n');
        assert(head + body + tail =~= head + (body + tail));
        assert(find_char(s, i, '\n') == head.len() + e);
        let line = body.subrange(j, e);
        assert(s.subrange(i, head.len() + e) =~= line);
        assert(line_at(body, j) == line);
        let next = OpenBlock {
            fence: b.fence,
            capture: Some(c + dedent(line, b.fence) + seq!['\n']),
            start: b.start,
        };
        assert(line_step(Some(b), line, pos) == (Some(next), LineAction::Drop));
        lemma_scan_body(head, body, tail, e + 1, next, c + dedent(line, b.fence) + seq!['\n'], pos);
        assert(c + dedent(line, b.fence) + seq!['\n'] + capture_of(body, e + 1, b.fence) =~= c
            + capture_of(body, j, b.fence));
        assert(scan_from(Some(b), s, i, pos).out =~= scan_from(Some(next), s, head.len() + e + 1, pos).out);
    } else {
        assert(c + capture_of(body, j, b.fence) =~= c);
    }
}

/// A fragment that holds a whole diagram block and nothing else gives way to
/// the image of the block's lines, without the fence's indentation; none of
/// its lines, fences included, stays. The block is then closed.
pub proof fn lemma_diagram_block(open: Seq<char>, body: Seq<char>, pos: Span)
    requires
        is_fence_line(open),
        is_diagram_info(fence_info(open)),
        is_single_line(open),
        is_block_body(body, fence_marker(open)),
    ensures
        step_result(None, open + seq!['\n'] + body + fence_marker(open), pos) == (
            None::<OpenBlock>,
            Outcome::Fragment(diagram_markup(capture_source(capture_of(body, 0, fence_marker(open))))),
        ),
{
    let close = fence_marker(open);
    let head = open + seq!['\n'];
    let s = head + body + close;
    let markup = diagram_markup(capture_source(capture_of(body, 0, close)));
    lemma_marker_is_fence_line(open);
    assert forall|k: int| 0 <= k < close.len() implies close[k] != '\n' by {
        assert(close[k] == open[k]);
    }
    // The opening line.
    lemma_find_char_skip(head, 0, open.len() as int, '\n');
    lemma_find_char_before(head, body + close, 0, '\n');
    assert(s =~= head + (body + close));
    assert(find_char(s, 0, '\n') == open.len());
    assert(s.subrange(0, open.len() as int) =~= open);
    let b = OpenBlock { fence: close, capture: Some(Seq::empty()), start: pos };
    assert(line_step(None, open, pos) == (Some(b), LineAction::Drop));
    // The lines of the body.
    lemma_scan_body(head, body, close, 0, b, Seq::empty(), pos);
    // The closing line.
    let done = OpenBlock {
        fence: close,
        capture: Some(Seq::<char>::empty() + capture_of(body, 0, close)),
        start: pos,
    };
    let k = (head.len() + body.len()) as int;
    lemma_single_line_find(close, 0);
    lemma_find_char_after(head + body, close, 0, '\n');
    assert(find_char(s, k, '\n') == s.len());
    assert(s.subrange(k, s.len() as int) =~= close);
    assert(Seq::<char>::empty() + capture_of(body, 0, close) =~= capture_of(body, 0, close));
    assert(line_step(Some(done), close, pos) == (None::<OpenBlock>, LineAction::Emit(markup)));
    let end = scan_from(Some(done), s, k, pos);
    assert(end.out == markup);
    assert(scan_from(None, s, 0, pos).out =~= markup);
}

/// A fragment that opens a diagram block and does not close it disappears
/// whole, and leaves the block open with the position of the fragment, for
/// `finalize` to report. The block holds the lines read so far, and the empty
/// line that follows the last newline.
pub proof fn lemma_unclosed_diagram_block(open: Seq<char>, body: Seq<char>, pos: Span)
    requires
        is_fence_line(open),
        is_diagram_info(fence_info(open)),
        is_single_line(open),
        is_block_body(body, fence_marker(open)),
    ensures
        step_result(None, open + seq!['\n'] + body, pos) == (
            Some(
                OpenBlock {
                    fence: fence_marker(open),
                    capture: Some(capture_of(body, 0, fence_marker(open)) + seq!['\n']),
                    start: pos,
                },
            ),
            Outcome::Empty,
        ),
{
    let fence = fence_marker(open);
    let head = open + seq!['\n'];
    let s = head + body;
    lemma_marker_is_fence_line(open);
    // The opening line.
    lemma_find_char_skip(head, 0, open.len() as int, '\n');
    lemma_find_char_before(head, body, 0, '\n');
    assert(find_char(s, 0, '\n') == open.len());
    assert(s.subrange(0, open.len() as int) =~= open);
    let b = OpenBlock { fence, capture: Some(Seq::empty()), start: pos };
    assert(line_step(None, open, pos) == (Some(b), LineAction::Drop));
    // The lines of the body.
    assert(s =~= head + body + Seq::<char>::empty());
    lemma_scan_body(head, body, Seq::empty(), 0, b, Seq::empty(), pos);
    // The empty line at the end.
    let c = Seq::<char>::empty() + capture_of(body, 0, fence);
    assert(c =~= capture_of(body, 0, fence));
    let done = OpenBlock { fence, capture: Some(c), start: pos };
    let k = s.len() as int;
    assert(find_char(s, k, '\n') == k);
    assert(s.subrange(k, k) =~= Seq::<char>::empty());
    assert(Seq::<char>::empty() != fence);
    assert(dedent(Seq::empty(), fence) =~= Seq::<char>::empty());
    let last = OpenBlock { fence, capture: Some(c + seq!['\n']), start: pos };
    assert(c + dedent(Seq::empty(), fence) + seq!['\n'] =~= c + seq!['\n']);
    assert(line_step(Some(done), Seq::empty(), pos) == (Some(last), LineAction::Drop));
    assert(scan_from(None, s, 0, pos).out =~= Seq::<char>::empty());
}

} // verus!
