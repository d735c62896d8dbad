use svgbobdoc::fence::{parse_fence, remove_indent};

fn parse(line: &str) -> Option<(usize, bool)> {
    let chars: Vec<char> = line.chars().collect();
    parse_fence(&chars).map(|f| (f.marker_end, f.diagram))
}

#[test]
fn dedent_removes_the_fence_indentation_only() {
    assert_eq!(remove_indent("      X", "    ```"), "  X");
}

#[test]
fn dedent_stops_at_a_mismatch() {
    assert_eq!(remove_indent("\t  X", "  ```"), "\t  X");
    assert_eq!(remove_indent(" X", "   ```"), "X");
    assert_eq!(remove_indent("", "  ```"), "");
    assert_eq!(remove_indent("  X", "```"), "  X");
}

#[test]
fn fence_lines() {
    assert_eq!(parse("```"), Some((3, false)));
    assert_eq!(parse("```svgbob"), Some((3, true)));
    assert_eq!(parse("   ````svgbob,label  "), Some((7, true)));
    assert_eq!(parse("~~~ svgbob "), Some((3, true)));
    assert_eq!(parse("```svgbob,"), Some((3, true)));
    assert_eq!(parse("```svgbobx"), Some((3, false)));
    assert_eq!(parse("```rust"), Some((3, false)));
    assert_eq!(parse("```\u{3000}svgbob\u{a0}"), Some((3, true)));
}

#[test]
fn not_fence_lines() {
    assert_eq!(parse(""), None);
    assert_eq!(parse("``"), None);
    assert_eq!(parse("    ```"), None);
    assert_eq!(parse("`~`"), None);
    assert_eq!(parse("text ```"), None);
}
