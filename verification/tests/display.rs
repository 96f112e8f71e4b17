use genos::display::geometry::{Point, Rect};
use genos::display::shell_buffer::{
    classify_command, FixedText, LineKind, ShellBuffer, ShellLine, MAX_SCROLLBACK_LINES,
};
use genos::display::stroke_font::{glyph, has_glyph};
use genos::display::text::{TextRenderer, TextStyle};
use genos::display::theme::Color;

#[test]
fn clips_rectangles() {
    let a = Rect::new(10, 10, 40, 30);
    let b = Rect::new(30, 0, 30, 30);
    assert_eq!(a.intersect(b), Rect::new(30, 10, 20, 20));
}

#[test]
fn non_overlapping_clip_is_empty() {
    assert!(Rect::new(0, 0, 10, 10)
        .intersect(Rect::new(20, 20, 5, 5))
        .is_empty());
}

#[test]
fn unions_rectangles() {
    assert_eq!(
        Rect::new(10, 10, 20, 20).union(Rect::new(25, 5, 10, 10)),
        Rect::new(10, 5, 25, 25)
    );
}

#[test]
fn union_with_empty_keeps_the_other() {
    let a = Rect::new(3, 4, 5, 6);
    assert_eq!(Rect::new(0, 0, 0, 9).union(a), a);
    assert_eq!(a.union(Rect::new(0, 0, 9, -1)), a);
}

#[test]
fn clip_contains_exactly_common_points() {
    let a = Rect::new(10, 10, 40, 30);
    let b = Rect::new(30, 0, 30, 30);
    let c = a.intersect(b);
    for (x, y) in [(30, 10), (49, 29), (50, 10), (29, 15), (35, 30)] {
        let p = Point::new(x, y);
        assert_eq!(c.contains(p), a.contains(p) && b.contains(p));
    }
    assert_eq!(Rect::new(1, 2, 10, 20).inset(2), Rect::new(3, 4, 6, 16));
    assert_eq!(Rect::new(1, 2, 10, 20).right(), 11);
    assert_eq!(Rect::new(1, 2, 10, 20).bottom(), 22);
}

#[test]
fn scrollback_drops_oldest_line() {
    let mut buffer = ShellBuffer::new();
    for i in 0..(MAX_SCROLLBACK_LINES + 3) {
        let mut text = FixedText::from_str("line ");
        text.push_u64(i as u64);
        buffer.push(ShellLine {
            kind: LineKind::Output,
            text,
        });
    }
    assert_eq!(buffer.len(), MAX_SCROLLBACK_LINES);
    assert_eq!(buffer.line(0).unwrap().text.as_str(), "line 3");
}

#[test]
fn wrapping_counts_continuation_rows() {
    assert_eq!(ShellBuffer::wrap_count(0, 12), 1);
    assert_eq!(ShellBuffer::wrap_count(12, 12), 1);
    assert_eq!(ShellBuffer::wrap_count(13, 12), 2);
}

#[test]
fn wrap_count_with_no_columns_is_zero() {
    assert_eq!(ShellBuffer::wrap_count(5, 0), 0);
    assert_eq!(ShellBuffer::wrap_count(usize::MAX, 1), usize::MAX);
}

#[test]
fn command_classification_marks_unknown_as_error() {
    assert_eq!(classify_command("help"), LineKind::Prompt);
    assert_eq!(classify_command("wat"), LineKind::Error);
    assert_eq!(classify_command("   "), LineKind::Status);
}

#[test]
fn command_classification_uses_first_word_after_trimming() {
    assert_eq!(classify_command("  cat README.TXT "), LineKind::Prompt);
    assert_eq!(classify_command("helpme"), LineKind::Error);
    assert_eq!(classify_command(""), LineKind::Status);
}

#[test]
fn fixed_text_formats_numbers_and_caps_length() {
    let mut text = FixedText::empty();
    text.push_u64(0);
    text.push_str(" ");
    text.push_u64(18446744073709551615);
    text.push_str(" ");
    text.push_hex(0);
    text.push_str(" ");
    text.push_hex(0xdead_beef);
    assert_eq!(text.as_str(), "0 18446744073709551615 0 deadbeef");
    let mut long = FixedText::from_str("é");
    assert_eq!(long.as_str(), "??");
    for _ in 0..200 {
        long.push_str("x");
    }
    assert_eq!(long.len(), 160);
    assert!(!long.is_empty());
    assert!(FixedText::empty().is_empty());
}

#[test]
fn shell_buffer_lines_and_visible_start() {
    let mut buffer = ShellBuffer::new();
    assert!(buffer.is_empty());
    buffer.push(ShellLine::new(LineKind::Error, "bad"));
    buffer.push(ShellLine::new(LineKind::Prompt, "ok"));
    assert_eq!(buffer.line(1).unwrap().text.as_str(), "ok");
    assert!(buffer.line(2).is_none());
    assert_eq!(buffer.visible_start(1), 1);
    assert_eq!(buffer.visible_start(5), 0);
    buffer.clear();
    assert_eq!(buffer.len(), 0);
    assert_eq!(ShellLine::empty().kind, LineKind::Output);
}

#[test]
fn common_shell_glyphs_exist() {
    for ch in "GenOS help clear mem ls cat README.TXT >:/=-_0123456789".chars() {
        assert!(has_glyph(ch), "missing glyph {ch}");
    }
}

#[test]
fn glyphs_fold_case_and_unknown_characters_are_blank() {
    assert_eq!(glyph('a').segments().len(), 3);
    assert_eq!(glyph('A').segments()[1].end, Point::new(6, 8));
    assert!(glyph('~').is_empty());
    assert!(!has_glyph('~'));
}

#[test]
fn vector_metrics_are_bounded() {
    let metrics = TextRenderer::metrics(TextStyle::regular(16, Color::text()));
    assert!(metrics.cell_width >= 10);
    assert!(metrics.line_height >= 20);
    assert!(metrics.stroke >= 1);
}

#[test]
fn metrics_scale_and_bold_strokes() {
    let small = TextRenderer::metrics(TextStyle::regular(4, Color::black()));
    assert_eq!((small.cell_width, small.line_height, small.glyph_height, small.stroke), (9, 16, 10, 1));
    let big = TextRenderer::metrics(TextStyle::bold(20, Color::rgb(1, 2, 3)));
    assert_eq!((big.cell_width, big.line_height, big.glyph_height, big.stroke), (14, 26, 20, 3));
}
