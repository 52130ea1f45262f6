use ascii_ansi_table::alignment::{align_text, justify_text, Alignment, ColumnConfig};

#[test]
fn test_alignment_enum() {
    assert_eq!(Alignment::default(), Alignment::Left);
}

#[test]
fn test_align_text_left() {
    let result = align_text("test", 10, Alignment::Left);
    assert_eq!(result, "test      ");
    assert_eq!(result.len(), 10);
}

#[test]
fn test_align_text_right() {
    let result = align_text("test", 10, Alignment::Right);
    assert_eq!(result, "      test");
    assert_eq!(result.len(), 10);
}

#[test]
fn test_align_text_center() {
    let result = align_text("test", 10, Alignment::Center);
    assert_eq!(result, "   test   ");
    assert_eq!(result.len(), 10);

    let result = align_text("test", 9, Alignment::Center);
    assert_eq!(result, "  test   ");
    assert_eq!(result.len(), 9);
}

#[test]
fn test_align_text_no_padding_needed() {
    let result = align_text("exact", 5, Alignment::Center);
    assert_eq!(result, "exact");

    let result = align_text("toolong", 5, Alignment::Left);
    assert_eq!(result, "toolong");
}

#[test]
fn test_column_config_builder() {
    let config = ColumnConfig::new().with_width(15).with_alignment(Alignment::Center);

    assert_eq!(config.width, Some(15));
    assert_eq!(config.alignment, Alignment::Center);
}

#[test]
fn test_justify_alignment() {
    let result = align_text("hello world", 15, Alignment::Justify);
    assert_eq!(result, "hello     world");
    assert_eq!(result.len(), 15);
}

#[test]
fn test_justify_text_single_word() {
    let result = justify_text("hello", 10);
    assert_eq!(result, "hello     ");
    assert_eq!(result.len(), 10);
}

#[test]
fn test_justify_text_exact_fit() {
    let result = justify_text("exact fit", 9);
    assert_eq!(result, "exact fit");
}

#[test]
fn align_text_counts_bytes_not_characters() {
    // "é" is two bytes, so it already fills a width of 2; below that, padding counts characters.
    assert_eq!(align_text("é", 2, Alignment::Right), "é");
    assert_eq!(align_text("é", 3, Alignment::Right), "  é");
}

#[test]
fn justify_gives_the_spare_spaces_to_the_first_gap() {
    assert_eq!(justify_text("a b c", 8), "a    b c");
}

#[test]
fn test_justify_text_multiple_words() {
    let result = justify_text("one two three", 20);
    assert_eq!(result, "one      two   three");
    assert_eq!(result.len(), 20);
}
