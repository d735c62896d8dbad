use proc_macro2::Span;
use svgbobdoc::scanner::{DiagramError, TextProcOutput, TextProcState};

const IMAGE_PREFIX: &str = "![](data:image/svg+xml;base64,";

/// The SVG document held by an image made by the scanner.
fn svg_of_image(image: &str) -> String {
    assert!(image.starts_with(IMAGE_PREFIX));
    assert!(image.ends_with(')'));
    let payload = &image[IMAGE_PREFIX.len()..image.len() - 1];
    String::from_utf8(base64::decode(payload).unwrap()).unwrap()
}

fn run(fragments: &[&str]) -> (Vec<TextProcOutput>, Result<(), DiagramError>) {
    let mut state = TextProcState::new();
    let outputs = fragments
        .iter()
        .map(|f| state.step(f, Span::call_site()))
        .collect();
    (outputs, state.finalize())
}

#[test]
fn plain_text_passes_through() {
    let (outputs, end) = run(&["Some text.\n", "More text\nover two lines", ""]);
    assert_eq!(
        outputs,
        vec![
            TextProcOutput::Passthrough,
            TextProcOutput::Passthrough,
            TextProcOutput::Passthrough
        ]
    );
    assert!(end.is_ok());
}

#[test]
fn passthrough_repeats_without_fences() {
    let mut state = TextProcState::new();
    for _ in 0..3 {
        assert_eq!(
            state.step("no fence here\n  `` two ticks only", Span::call_site()),
            TextProcOutput::Passthrough
        );
    }
    // Inside an ordinary fenced block too.
    assert_eq!(
        state.step("```rust", Span::call_site()),
        TextProcOutput::Passthrough
    );
    for _ in 0..3 {
        assert_eq!(
            state.step("let x = 1;\n", Span::call_site()),
            TextProcOutput::Passthrough
        );
    }
    assert!(state.finalize().is_ok());
}

#[test]
fn diagram_block_in_one_fragment() {
    let (outputs, end) = run(&["```svgbob\nA\n```\n"]);
    assert!(end.is_ok());
    assert_eq!(outputs.len(), 1);
    match &outputs[0] {
        TextProcOutput::Fragment(t) => {
            assert!(!t.contains("```"));
            let svg = svg_of_image(t);
            assert!(svg.contains("<svg"));
        }
        other => panic!("unexpected output {:?}", other),
    }
}

#[test]
fn diagram_block_over_fragments() {
    let (outputs, end) = run(&["```svgbob\n", "A\n", "```\n"]);
    assert!(end.is_ok());
    assert_eq!(outputs[0], TextProcOutput::Empty);
    assert_eq!(outputs[1], TextProcOutput::Empty);
    match &outputs[2] {
        TextProcOutput::Fragment(t) => {
            assert!(!t.contains("```"));
            assert!(svg_of_image(t).contains("<svg"));
        }
        other => panic!("unexpected output {:?}", other),
    }
}

#[test]
fn text_around_a_diagram_is_kept() {
    let (outputs, end) = run(&["before\n```svgbob\nX\n```\nafter"]);
    assert!(end.is_ok());
    match &outputs[0] {
        TextProcOutput::Fragment(t) => {
            assert!(t.starts_with("before\n![](data:image/svg+xml;base64,"));
            assert!(t.ends_with(")after"));
            let image = &t["before\n".len()..t.len() - "after".len()];
            assert!(svg_of_image(image).contains("<svg"));
        }
        other => panic!("unexpected output {:?}", other),
    }
}

#[test]
fn unclosed_diagram_block_fails() {
    let (outputs, end) = run(&["```svgbob\n", "X\n"]);
    assert_eq!(outputs, vec![TextProcOutput::Empty, TextProcOutput::Empty]);
    assert!(matches!(
        end,
        Err(DiagramError::UnclosedDiagramBlock { .. })
    ));
}

#[test]
fn unclosed_ordinary_block_is_accepted() {
    let (outputs, end) = run(&["```text\n", "X\n"]);
    assert_eq!(
        outputs,
        vec![TextProcOutput::Passthrough, TextProcOutput::Passthrough]
    );
    assert!(end.is_ok());
}

#[test]
fn ordinary_block_passes_through() {
    let (outputs, end) = run(&["```rust\n", "fn f(){}\n", "```\n"]);
    assert_eq!(
        outputs,
        vec![
            TextProcOutput::Passthrough,
            TextProcOutput::Passthrough,
            TextProcOutput::Passthrough
        ]
    );
    assert!(end.is_ok());
}

#[test]
fn diagram_fence_inside_ordinary_block_is_text() {
    let (outputs, end) = run(&["```rust\n```svgbob\nx\n```\nafter"]);
    assert_eq!(outputs, vec![TextProcOutput::Passthrough]);
    assert!(end.is_ok());
}

#[test]
fn block_continues_into_next_fragment() {
    let (outputs, end) = run(&[" ```svgbob,label", " .---.", " `---'", " ```", "after"]);
    assert!(end.is_ok());
    assert_eq!(outputs[0], TextProcOutput::Empty);
    assert_eq!(outputs[1], TextProcOutput::Empty);
    assert_eq!(outputs[2], TextProcOutput::Empty);
    match &outputs[3] {
        TextProcOutput::Fragment(t) => assert!(svg_of_image(t).contains("<svg")),
        other => panic!("unexpected output {:?}", other),
    }
    assert_eq!(outputs[4], TextProcOutput::Passthrough);
}

#[test]
fn opening_fence_after_text_keeps_the_text() {
    let (outputs, end) = run(&["intro\n```svgbob", "```"]);
    assert!(end.is_ok());
    assert_eq!(outputs[0], TextProcOutput::Fragment("intro\n".to_string()));
    match &outputs[1] {
        TextProcOutput::Fragment(t) => assert!(svg_of_image(t).contains("<svg")),
        other => panic!("unexpected output {:?}", other),
    }
}

#[test]
fn only_the_same_marker_closes_a_diagram() {
    // A longer run of backticks inside the block is part of the diagram.
    let (outputs, end) = run(&["```svgbob", "````", "~~~", "```"]);
    assert!(end.is_ok());
    assert_eq!(outputs[0], TextProcOutput::Empty);
    assert_eq!(outputs[1], TextProcOutput::Empty);
    assert_eq!(outputs[2], TextProcOutput::Empty);
    assert!(matches!(outputs[3], TextProcOutput::Fragment(_)));
}

#[test]
fn same_diagram_gives_same_image() {
    let (a, _) = run(&["```svgbob\n+--+\n```"]);
    let (b, _) = run(&["```svgbob", "+--+", "```"]);
    assert_eq!(a.len(), 1);
    assert_eq!(b.len(), 3);
    assert_eq!(a[0], b[2]);
}

#[test]
fn four_spaces_do_not_open_a_block() {
    let (outputs, end) = run(&["    ```svgbob\n    x\n    ```"]);
    assert_eq!(outputs, vec![TextProcOutput::Passthrough]);
    assert!(end.is_ok());
}

#[test]
fn unclosed_block_in_one_fragment() {
    let (outputs, end) = run(&["```svgbob\nX\n"]);
    assert_eq!(outputs, vec![TextProcOutput::Empty]);
    assert!(matches!(
        end,
        Err(DiagramError::UnclosedDiagramBlock { .. })
    ));
}

#[test]
fn tilde_fences_and_indentation() {
    let (outputs, end) = run(&["  ~~~ svgbob,fig\n    +-+\n  ~~~\nend\n"]);
    assert!(end.is_ok());
    match &outputs[0] {
        TextProcOutput::Fragment(t) => {
            assert!(t.ends_with(")end\n"));
            let image = &t[..t.len() - "end\n".len()];
            assert!(svg_of_image(image).contains("<line"));
        }
        other => panic!("unexpected output {:?}", other),
    }
}
