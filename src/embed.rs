//! Turning the source of a diagram into an inline Markdown image.

use vstd::prelude::*;
use vstd::utf8::encode_utf8;

use crate::svg_text::{set_text_lengths, text_lengths_set, CELL_WIDTH};

verus! {

/// The width of the lines of a diagram, in SVG user units.
pub const STROKE_WIDTH: u16 = 1;

/// The fonts asked for the text of a diagram.
///
/// They approximate the monospace font of rustdoc's stylesheet. Source Code
/// Pro is not always at hand, since an image cannot use the `@font-face` of
/// the page that holds it.
pub const DIAGRAM_FONT: &'static str =
    "'Source Code Pro','Andale Mono','Segoe UI Mono','Dejavu Sans Mono',monospace";

/// The SVG text that svgbob draws for `art`.
pub uninterp spec fn svgbob_svg(
    art: Seq<char>,
    cell_width: int,
    stroke_width: int,
    font_family: Seq<char>,
) -> Seq<char>;

/// Relies on svgbob's `Grid::from_str` and `Grid::get_svg`, and on the
/// `Display` of the SVG document they build: the SVG text for `art`, drawn on
/// cells `cell_width` units wide with lines `stroke_width` units thick and
/// text set in `font_family`. It depends on these arguments alone.
#[verifier::external_body]
fn render_svg(art: &str, cell_width: u16, stroke_width: u16, font_family: &str) -> (r: String)
    ensures
        r@ == svgbob_svg(art@, cell_width as int, stroke_width as int, font_family@),
{
    let mut settings = svgbob::Settings::default();
    settings.text_width = cell_width.into();
    settings.stroke_width = stroke_width.into();
    settings.font_family = font_family.to_owned();
    let svg = svgbob::Grid::from_str(art, &settings).get_svg();
    svg.to_string()
}

/// The standard base64 text, with padding, of the bytes `b`.
pub uninterp spec fn base64_of(b: Seq<u8>) -> Seq<char>;

/// Relies on `base64::encode`: the standard base64 text of `b`, with padding.
#[verifier::external_body]
fn base64_encode(b: &[u8]) -> (r: String)
    ensures
        r@ == base64_of(b@),
{
    base64::encode(b)
}

/// The SVG document of a diagram, with the length of its text elements set.
pub open spec fn diagram_svg(art: Seq<char>) -> Seq<char> {
    text_lengths_set(
        svgbob_svg(art, CELL_WIDTH as int, STROKE_WIDTH as int, DIAGRAM_FONT@),
    )
}

/// The Markdown image that shows a diagram: a `data:` URI holding its SVG
/// document in base64.
pub open spec fn diagram_markup(art: Seq<char>) -> Seq<char> {
    "![](data:image/svg+xml;base64,"@ + base64_of(encode_utf8(diagram_svg(art))) + ")"@
}

/// Renders the diagram `art` and appends the image that shows it to `output`.
pub fn convert_diagram(art: &str, output: &mut String)
    ensures
        final(output)@ == old(output)@ + diagram_markup(art@),
{
    let svg = render_svg(art, CELL_WIDTH, STROKE_WIDTH, DIAGRAM_FONT);
    let svg = set_text_lengths(svg.as_str());
    let encoded = base64_encode(svg.as_str().as_bytes());
    let ghost before = output@;
    output.append("![](data:image/svg+xml;base64,");
    output.append(encoded.as_str());
    output.append(")");
    assert(output@ =~= before + diagram_markup(art@));
}

} // verus!
