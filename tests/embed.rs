use svgbobdoc::embed::convert_diagram;
use svgbobdoc::example::{test_function, TestStruct};
use svgbobdoc::svg_text::{push_decimal, push_text_length, set_text_lengths};
use svgbobdoc::width::width_xml_text;

#[test]
fn escape_counts_as_one_cell() {
    assert_eq!(width_xml_text("&#12354;ab"), 3);
}

#[test]
fn wide_characters_count_twice() {
    assert_eq!(width_xml_text("\u{3042}ab"), 4);
    assert_eq!(width_xml_text("ab"), 2);
    assert_eq!(width_xml_text(""), 0);
}

#[test]
fn reference_without_semicolon_runs_to_the_end() {
    assert_eq!(width_xml_text("a&amp"), 2);
    assert_eq!(width_xml_text("&lt;&gt;x"), 3);
}

#[test]
fn text_length_is_set() {
    assert_eq!(
        set_text_lengths("<svg><text x=\"1\">ab</text></svg>"),
        "<svg><text x=\"1\" textLength=\"16\">ab</text></svg>"
    );
    assert_eq!(
        set_text_lengths("<text>&lt;\u{3042}</text><text y=\"2\"></text>"),
        "<text textLength=\"24\">&lt;\u{3042}</text><text y=\"2\" textLength=\"0\"></text>"
    );
}

#[test]
fn text_without_closing_tag_is_left() {
    assert_eq!(set_text_lengths("<text>a<b</text>"), "<text>a<b</text>");
    assert_eq!(set_text_lengths("<tex>a</tex>"), "<tex>a</tex>");
}

#[test]
fn decimals() {
    let mut s = String::new();
    push_decimal(&mut s, 0);
    s.push(' ');
    push_decimal(&mut s, 1234567890);
    s.push(' ');
    push_text_length(&mut s, 3);
    s.push(' ');
    push_text_length(&mut s, u128::MAX);
    assert_eq!(s, "0 1234567890 24 2722258935367507707706996859454145691640");
}

#[test]
fn diagram_becomes_an_svg_image() {
    let mut out = String::from("x");
    convert_diagram("+--+\n|hi|\n+--+", &mut out);
    let prefix = "x![](data:image/svg+xml;base64,";
    assert!(out.starts_with(prefix));
    assert!(out.ends_with(')'));
    let svg = base64::decode(&out[prefix.len()..out.len() - 1]).unwrap();
    let svg = String::from_utf8(svg).unwrap();
    assert!(svg.contains("<svg"));
    assert!(svg.contains("Source Code Pro"));
    assert!(svg.contains("textLength=\"16\">\nhi\n</text>"));
    assert!(svg.contains("stroke-width: 1;"));
}

#[test]
fn example_items() {
    test_function();
    TestStruct::test_method();
    let s = TestStruct { field1: 3 };
    assert_eq!(s.field1, 3);
}
