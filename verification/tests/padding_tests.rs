use ascii_ansi_table::padding::{apply_padding, apply_padding_with_width, Padding};

#[test]
fn test_padding_default() {
    let padding = Padding::default();
    assert_eq!(padding.left, 1);
    assert_eq!(padding.right, 1);
    assert_eq!(padding.total(), 2);
}

#[test]
fn test_padding_creation() {
    let padding = Padding::new(2, 3);
    assert_eq!(padding.left, 2);
    assert_eq!(padding.right, 3);
    assert_eq!(padding.total(), 5);

    let sym_padding = Padding::symmetric(2);
    assert_eq!(sym_padding.left, 2);
    assert_eq!(sym_padding.right, 2);

    let no_padding = Padding::none();
    assert_eq!(no_padding.total(), 0);
}

#[test]
fn test_apply_padding() {
    let padding = Padding::new(2, 1);
    let result = apply_padding("test", padding);
    assert_eq!(result, "  test ");
    assert_eq!(result.len(), 7);
}

#[test]
fn test_apply_padding_with_width() {
    let padding = Padding::new(1, 1);
    let result = apply_padding_with_width("test", 8, padding);
    assert_eq!(result, " test   ");
    assert_eq!(result.len(), 8);

    let result = apply_padding_with_width("verylongtext", 8, padding);
    assert_eq!(result, " verylo ");
    assert_eq!(result.len(), 8);
}

#[test]
fn test_no_padding() {
    let padding = Padding::none();
    let result = apply_padding("test", padding);
    assert_eq!(result, "test");
}

#[test]
fn padding_wider_than_the_total_leaves_no_content() {
    assert_eq!(apply_padding_with_width("abc", 1, Padding::new(1, 1)), "  ");
}
