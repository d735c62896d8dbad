//! The scanner that finds diagram blocks in a sequence of documentation
//! fragments and replaces each of them with the image of its diagram.
//!
//! A fragment is read line by line. Outside a block, a fence line opens one;
//! its marker is remembered, and a later line equal to the marker closes it.
//! The lines of a block tagged `svgbob` are captured instead of shown: the
//! opening line and the captured lines disappear, and the closing line gives
//! way to the image. Blocks of any other kind pass through as they are. A
//! block may span fragments, so the open block is kept between calls.

use proc_macro2::Span;
use vstd::prelude::*;
use vstd::slice::slice_to_vec;

use crate::embed::{convert_diagram, diagram_markup};
use crate::fence::{
    dedent, fence_info, fence_marker, indent_len, is_diagram_info, is_fence_line,
    lemma_marker_is_fence_line, parse_fence,
};
use crate::text::{
    chars_of, find_char, find_char_from, lemma_find_char, push_chars, string_of,
};

verus! {

/// The position in the source that a fragment comes from.
#[verifier::external_type_specification]
#[verifier::external_body]
pub struct ExSpan(Span);

/// A block that has been opened and not yet closed.
pub struct OpenBlock {
    /// The marker of the fence line that opened the block.
    pub fence: Seq<char>,
    /// For a diagram block, the lines captured so far, each ending with a newline.
    pub capture: Option<Seq<char>>,
    /// The position of the fragment that opened the block.
    pub start: Span,
}

/// What becomes of one line.
pub enum LineAction {
    /// The line stays as it is.
    Keep,
    /// The line disappears.
    Drop,
    /// The line gives way to this text.
    Emit(Seq<char>),
}

/// The diagram source held by a capture: its lines without the last newline.
pub open spec fn capture_source(c: Seq<char>) -> Seq<char> {
    if c.len() > 0 {
        c.drop_last()
    } else {
        c
    }
}

/// The next state and the action for one line read in state `st`, from a
/// fragment at `pos`.
pub open spec fn line_step(st: Option<OpenBlock>, line: Seq<char>, pos: Span) -> (
    Option<OpenBlock>,
    LineAction,
) {
    match st {
        Some(b) => {
            if line == b.fence {
                match b.capture {
                    Some(c) => (None, LineAction::Emit(diagram_markup(capture_source(c)))),
                    None => (None, LineAction::Keep),
                }
            } else {
                match b.capture {
                    Some(c) => (
                        Some(
                            OpenBlock {
                                fence: b.fence,
                                capture: Some(c + dedent(line, b.fence) + seq!['\n']),
                                start: b.start,
                            },
                        ),
                        LineAction::Drop,
                    ),
                    None => (st, LineAction::Keep),
                }
            }
        },
        None => {
            if is_fence_line(line) {
                if is_diagram_info(fence_info(line)) {
                    (
                        Some(
                            OpenBlock {
                                fence: fence_marker(line),
                                capture: Some(Seq::empty()),
                                start: pos,
                            },
                        ),
                        LineAction::Drop,
                    )
                } else {
                    (
                        Some(OpenBlock { fence: fence_marker(line), capture: None, start: pos }),
                        LineAction::Keep,
                    )
                }
            } else {
                (None, LineAction::Keep)
            }
        },
    }
}

/// The text that a line `s[i..e]` contributes to the output.
pub open spec fn line_output(s: Seq<char>, i: int, e: int, act: LineAction) -> Seq<char> {
    match act {
        LineAction::Keep => if e < s.len() {
            s.subrange(i, e + 1)
        } else {
            s.subrange(i, e)
        },
        LineAction::Drop => Seq::empty(),
        LineAction::Emit(t) => t,
    }
}

/// What reading the lines of a fragment gives.
pub struct ScanResult {
    /// The state after the last line.
    pub state: Option<OpenBlock>,
    /// The output of all the lines.
    pub out: Seq<char>,
    /// Whether some line was kept.
    pub kept: bool,
    /// Whether some line was dropped.
    pub dropped: bool,
    /// Whether some line gave way to an image.
    pub emitted: bool,
}

/// Reads the lines of `s` from position `i`, the start of a line, in state
/// `st`. Lines end at `\n`; the last one runs to the end of `s`.
pub open spec fn scan_from(st: Option<OpenBlock>, s: Seq<char>, i: int, pos: Span) -> ScanResult
    decreases s.len() - i,
{
    let e = find_char(s, i, '\n');
    let (next, act) = line_step(st, s.subrange(i, e), pos);
    let out = line_output(s, i, e, act);
    if 0 <= i <= s.len() && e < s.len() {
        proof {
            lemma_find_char(s, i, '\n');
        }
        let rest = scan_from(next, s, e + 1, pos);
        ScanResult {
            state: rest.state,
            out: out + rest.out,
            kept: act is Keep || rest.kept,
            dropped: act is Drop || rest.dropped,
            emitted: act is Emit || rest.emitted,
        }
    } else {
        ScanResult {
            state: next,
            out,
            kept: act is Keep,
            dropped: act is Drop,
            emitted: act is Emit,
        }
    }
}

/// What a call of `step` returns, as a value of the model.
pub enum Outcome {
    Passthrough,
    Empty,
    Fragment(Seq<char>),
}

/// The outcome of a scan: the fragment unchanged when every line was kept,
/// nothing when every line was dropped, and the new text otherwise.
pub open spec fn outcome_of(r: ScanResult) -> Outcome {
    if !r.dropped && !r.emitted {
        Outcome::Passthrough
    } else if !r.kept && !r.emitted {
        Outcome::Empty
    } else {
        Outcome::Fragment(r.out)
    }
}

/// The state after a fragment and the outcome for it.
pub open spec fn step_result(st: Option<OpenBlock>, s: Seq<char>, pos: Span) -> (
    Option<OpenBlock>,
    Outcome,
) {
    let r = scan_from(st, s, 0, pos);
    (r.state, outcome_of(r))
}

/// The states that the scanner can be in: an open block was opened by a
/// fence line, and a capture is empty or ends with a newline.
pub open spec fn well_formed(st: Option<OpenBlock>) -> bool {
    st matches Some(b) ==> {
        &&& is_fence_line(b.fence)
        &&& b.capture matches Some(c) ==> c.len() == 0 || c.last() == '\n'
    }
}

/// Whether `st` has a diagram block open.
pub open spec fn is_capturing(st: Option<OpenBlock>) -> bool {
    st matches Some(b) && b.capture is Some
}

proof fn lemma_line_step_well_formed(st: Option<OpenBlock>, line: Seq<char>, pos: Span)
    requires
        well_formed(st),
    ensures
        well_formed(line_step(st, line, pos).0),
{
    if st is None && is_fence_line(line) {
        lemma_marker_is_fence_line(line);
    }
}

proof fn lemma_scan_well_formed(st: Option<OpenBlock>, s: Seq<char>, i: int, pos: Span)
    requires
        well_formed(st),
    ensures
        well_formed(scan_from(st, s, i, pos).state),
    decreases s.len() - i,
{
    let e = find_char(s, i, '\n');
    lemma_line_step_well_formed(st, s.subrange(i, e), pos);
    if 0 <= i <= s.len() && e < s.len() {
        lemma_find_char(s, i, '\n');
        lemma_scan_well_formed(line_step(st, s.subrange(i, e), pos).0, s, e + 1, pos);
    }
}

/// Every state that `step` leaves behind, from a state the scanner can be
/// in, is one the scanner can be in.
pub proof fn lemma_step_well_formed(st: Option<OpenBlock>, s: Seq<char>, pos: Span)
    requires
        well_formed(st),
    ensures
        well_formed(step_result(st, s, pos).0),
{
    lemma_scan_well_formed(st, s, 0, pos);
}

struct CodeBlock {
    fence: Vec<char>,
    captured: Option<Vec<char>>,
    start: Span,
}

spec fn block_view(b: Option<CodeBlock>) -> Option<OpenBlock> {
    match b {
        Some(b) => Some(
            OpenBlock {
                fence: b.fence@,
                capture: match b.captured {
                    Some(c) => Some(c@),
                    None => None,
                },
                start: b.start,
            },
        ),
        None => None,
    }
}

/// The state of the scanner between fragments.
pub struct TextProcState {
    code_block: Option<CodeBlock>,
}

impl View for TextProcState {
    type V = Option<OpenBlock>;

    closed spec fn view(&self) -> Option<OpenBlock> {
        block_view(self.code_block)
    }
}

/// The output of `TextProcState::step`.
#[derive(Debug, PartialEq, Eq)]
pub enum TextProcOutput {
    /// The fragment stays as it is, with its position.
    Passthrough,
    /// The fragment disappears.
    Empty,
    /// The fragment gives way to this text, which keeps no tie to its position.
    Fragment(String),
}

impl View for TextProcOutput {
    type V = Outcome;

    open spec fn view(&self) -> Outcome {
        match self {
            TextProcOutput::Passthrough => Outcome::Passthrough,
            TextProcOutput::Empty => Outcome::Empty,
            TextProcOutput::Fragment(t) => Outcome::Fragment(t@),
        }
    }
}

/// The error that ends the processing of a document.
#[derive(Debug)]
pub enum DiagramError {
    /// A diagram block was still open at the end; `at` is where it began.
    UnclosedDiagramBlock { at: Span },
}

/// What a line does, with the source of the diagram to draw in place of a
/// closing line.
enum LineEffect {
    Keep,
    Drop,
    Render(String),
}

spec fn effect_is(eff: LineEffect, act: LineAction) -> bool {
    match eff {
        LineEffect::Keep => act is Keep,
        LineEffect::Drop => act is Drop,
        LineEffect::Render(art) => act == LineAction::Emit(diagram_markup(art@)),
    }
}

/// Whether `v[from..to]` equals `w`.
fn range_eq(v: &[char], from: usize, to: usize, w: &[char]) -> (r: bool)
    requires
        from <= to <= v@.len(),
    ensures
        r == (v@.subrange(from as int, to as int) == w@),
{
    if to - from != w.len() {
        return false;
    }
    let mut j: usize = 0;
    while j < w.len()
        invariant
            from <= to <= v@.len(),
            to - from == w@.len(),
            j <= w@.len(),
            forall|k: int| 0 <= k < j ==> v@[from + k] == w@[k],
        decreases w@.len() - j,
    {
        if v[from + j] != w[j] {
            assert(v@.subrange(from as int, to as int)[j as int] != w@[j as int]);
            return false;
        }
        j = j + 1;
    }
    assert(v@.subrange(from as int, to as int) =~= w@);
    true
}

/// Appends `v[from..to]` to `c`.
fn extend_chars(c: &mut Vec<char>, v: &[char], from: usize, to: usize)
    requires
        from <= to <= v@.len(),
    ensures
        final(c)@ == old(c)@ + v@.subrange(from as int, to as int),
{
    let mut i = from;
    while i < to
        invariant
            from <= i <= to <= v@.len(),
            c@ == old(c)@ + v@.subrange(from as int, i as int),
        decreases to - i,
    {
        c.push(v[i]);
        i = i + 1;
        assert(c@ =~= old(c)@ + v@.subrange(from as int, i as int));
    }
}

/// Reads the line `v[from..to]` in the state `block`.
fn step_line(block: Option<CodeBlock>, v: &[char], from: usize, to: usize, pos: Span) -> (r: (
    Option<CodeBlock>,
    LineEffect,
))
    requires
        from <= to <= v@.len(),
    ensures
        block_view(r.0) == line_step(block_view(block), v@.subrange(from as int, to as int), pos).0,
        effect_is(r.1, line_step(block_view(block), v@.subrange(from as int, to as int), pos).1),
{
    let ghost line = v@.subrange(from as int, to as int);
    match block {
        Some(b) => {
            if range_eq(v, from, to, b.fence.as_slice()) {
                match b.captured {
                    Some(c) => {
                        let len = c.len();
                        let art = if len > 0 {
                            string_of(&c.as_slice()[0..len - 1])
                        } else {
                            string_of(c.as_slice())
                        };
                        assert(art@ =~= capture_source(c@));
                        (None, LineEffect::Render(art))
                    },
                    None => (None, LineEffect::Keep),
                }
            } else {
                match b.captured {
                    Some(c) => {
                        let ghost before = c@;
                        let mut c = c;
                        let k = indent_len(&v[from..to], b.fence.as_slice());
                        extend_chars(&mut c, v, from + k, to);
                        c.push('\n');
                        assert(c@ =~= before + dedent(line, b.fence@) + seq!['\n']);
                        (
                            Some(CodeBlock { fence: b.fence, captured: Some(c), start: b.start }),
                            LineEffect::Drop,
                        )
                    },
                    None => (
                        Some(CodeBlock { fence: b.fence, captured: None, start: b.start }),
                        LineEffect::Keep,
                    ),
                }
            }
        },
        None => {
            let l = &v[from..to];
            match parse_fence(l) {
                Some(f) => {
                    let fence = slice_to_vec(&l[0..f.marker_end]);
                    if f.diagram {
                        (
                            Some(CodeBlock { fence, captured: Some(Vec::new()), start: pos }),
                            LineEffect::Drop,
                        )
                    } else {
                        (Some(CodeBlock { fence, captured: None, start: pos }), LineEffect::Keep)
                    }
                },
                None => (None, LineEffect::Keep),
            }
        },
    }
}

impl TextProcState {
    /// A scanner with no block open.
    pub fn new() -> (r: Self)
        ensures
            r@ is None,
            well_formed(r@),
    {
        TextProcState { code_block: None }
    }

    /// Reads one fragment and says what becomes of it.
    ///
    /// Where no line of the fragment is dropped or replaced the result is
    /// `Passthrough`; where every line is dropped it is `Empty`; otherwise it
    /// is the new text. A block left open at the end of the fragment stays
    /// open for the next one.
    pub fn step(&mut self, fragment: &str, span: Span) -> (r: TextProcOutput)
        ensures
            (final(self)@, r@) == step_result(old(self)@, fragment@, span),
            well_formed(old(self)@) ==> well_formed(final(self)@),
    {
        let chars = chars_of(fragment);
        let v = chars.as_slice();
        let n = v.len();
        let ghost st0 = self@;
        let ghost whole = scan_from(st0, v@, 0, span);
        proof {
            if well_formed(st0) {
                lemma_step_well_formed(st0, fragment@, span);
            }
        }
        let mut i: usize = 0;
        let mut kept = false;
        let mut dropped = false;
        let mut emitted = false;
        let mut building = false;
        let mut frag = String::new();
        let ghost mut acc: Seq<char> = Seq::empty();
        assert(acc + scan_from(st0, v@, 0, span).out =~= whole.out);
        loop
            invariant
                n == v@.len(),
                v@ == fragment@,
                st0 == old(self)@,
                whole == scan_from(st0, v@, 0, span),
                well_formed(st0) ==> well_formed(whole.state),
                i <= n,
                whole.state == scan_from(self@, v@, i as int, span).state,
                whole.out == acc + scan_from(self@, v@, i as int, span).out,
                whole.kept == (kept || scan_from(self@, v@, i as int, span).kept),
                whole.dropped == (dropped || scan_from(self@, v@, i as int, span).dropped),
                whole.emitted == (emitted || scan_from(self@, v@, i as int, span).emitted),
                building == (emitted || (kept && dropped)),
                building ==> frag@ == acc,
                !building ==> frag@ == Seq::<char>::empty(),
                !dropped && !emitted ==> acc == v@.subrange(0, i as int),
                !kept && !emitted ==> acc == Seq::<char>::empty(),
            decreases n - i,
        {
            let e = find_char_from(v, i, '\n');
            let ghost st = self@;
            let ghost step = line_step(st, v@.subrange(i as int, e as int), span);
            let ghost piece = line_output(v@, i as int, e as int, step.1);
            let block = self.code_block.take();
            let (next, effect) = step_line(block, v, i, e, span);
            self.code_block = next;
            let (is_keep, is_drop, is_render) = match effect {
                LineEffect::Keep => (true, false, false),
                LineEffect::Drop => (false, true, false),
                LineEffect::Render(_) => (false, false, true),
            };
            let kept2 = kept || is_keep;
            let dropped2 = dropped || is_drop;
            let emitted2 = emitted || is_render;
            let building2 = emitted2 || (kept2 && dropped2);
            if building2 && !building && !dropped && !emitted {
                push_chars(&mut frag, v, 0, i);
            }
            match effect {
                LineEffect::Keep => {
                    if building2 {
                        if e < n {
                            push_chars(&mut frag, v, i, e + 1);
                        } else {
                            push_chars(&mut frag, v, i, e);
                        }
                    }
                },
                LineEffect::Drop => {},
                LineEffect::Render(art) => {
                    convert_diagram(art.as_str(), &mut frag);
                },
            }
            kept = kept2;
            dropped = dropped2;
            emitted = emitted2;
            building = building2;
            proof {
                lemma_find_char(v@, i as int, '\n');
                let here = scan_from(st, v@, i as int, span);
                assert(self@ == step.0);
                if e < n {
                    let rest = scan_from(self@, v@, e + 1, span);
                    assert(here.out == piece + rest.out);
                    assert(whole.out =~= (acc + piece) + rest.out);
                } else {
                    assert(here.out == piece);
                    assert(here.state == self@);
                    assert(whole.out =~= acc + piece);
                    assert(whole.kept == kept && whole.dropped == dropped && whole.emitted == emitted);
                }
                acc = acc + piece;
            }
            if e < n {
                i = e + 1;
            } else {
                if !dropped && !emitted {
                    return TextProcOutput::Passthrough;
                } else if !kept && !emitted {
                    return TextProcOutput::Empty;
                } else {
                    return TextProcOutput::Fragment(frag);
                }
            }
        }
    }

    /// Ends the document: fails where a diagram block is still open.
    pub fn finalize(self) -> (r: Result<(), DiagramError>)
        ensures
            r matches Err(DiagramError::UnclosedDiagramBlock { at }) ==> self@ matches Some(b)
                && b.capture is Some && at == b.start,
            r is Ok <==> !(self@ matches Some(b) && b.capture is Some),
    {
        match self.code_block {
            Some(b) => match b.captured {
                Some(_) => Err(DiagramError::UnclosedDiagramBlock { at: b.start }),
                None => Ok(()),
            },
            None => Ok(()),
        }
    }
}

} // verus!
