use ascii_ansi_table::features::alignment_processor::AlignmentProcessor;
use ascii_ansi_table::features::borders::BorderRenderer;
use ascii_ansi_table::get_border_characters;
use ascii_ansi_table::types::{Alignment, VerticalAlignment};

#[test]
fn test_align_text_horizontal() {
    let text = "hello";
    let left_aligned = AlignmentProcessor::align_text_horizontal(text, 10, Alignment::Left);
    assert_eq!(left_aligned, "hello     ");
    let right_aligned = AlignmentProcessor::align_text_horizontal(text, 10, Alignment::Right);
    assert_eq!(right_aligned, "     hello");
    let center_aligned = AlignmentProcessor::align_text_horizontal(text, 10, Alignment::Center);
    assert_eq!(center_aligned, "  hello   ");
}

#[test]
fn test_align_text_vertical() {
    let lines = vec!["line1".to_string(), "line2".to_string()];
    let top_aligned = AlignmentProcessor::align_text_vertical(&lines, 5, VerticalAlignment::Top);
    assert_eq!(top_aligned, vec!["line1", "line2", "", "", ""]);
    let bottom_aligned = AlignmentProcessor::align_text_vertical(&lines, 5, VerticalAlignment::Bottom);
    assert_eq!(bottom_aligned, vec!["", "", "", "line1", "line2"]);
    let middle_aligned = AlignmentProcessor::align_text_vertical(&lines, 5, VerticalAlignment::Middle);
    assert_eq!(middle_aligned, vec!["", "line1", "line2", "", ""]);
}

#[test]
fn test_distribute_content_evenly() {
    let content = "hello world test";
    let distributed = AlignmentProcessor::distribute_content_evenly(content, 20);
    assert_eq!(distributed, "hello   world   test");
    let single_word = "hello";
    let single_distributed = AlignmentProcessor::distribute_content_evenly(single_word, 10);
    assert_eq!(single_distributed, "hello");
}

#[test]
fn test_border_renderer() {
    let border_config = get_border_characters("honeywell").unwrap();
    let column_widths = vec![5, 10, 3];
    let renderer = BorderRenderer::new(border_config, column_widths);
    let top_border = renderer.draw_top_border();
    assert!(top_border.contains("┌"));
    assert!(top_border.contains("┐"));
    assert!(top_border.contains("┬"));
    assert!(top_border.contains("─"));
    let bottom_border = renderer.draw_bottom_border();
    assert!(bottom_border.contains("└"));
    assert!(bottom_border.contains("┘"));
    assert!(bottom_border.contains("┴"));
    let separator = renderer.draw_separator();
    assert!(separator.contains("├"));
    assert!(separator.contains("┤"));
    assert!(separator.contains("┼"));
}

#[test]
fn border_lines_are_exact() {
    let renderer = BorderRenderer::new(get_border_characters("ramac").unwrap(), vec![2, 1]);
    assert_eq!(renderer.draw_top_border(), "+--+-+");
    assert_eq!(renderer.draw_separator(), "+--+-+");
}

#[test]
fn distributing_more_words_than_width_leaves_no_gaps() {
    assert_eq!(AlignmentProcessor::distribute_content_evenly("ab cd", 2), "abcd");
}
