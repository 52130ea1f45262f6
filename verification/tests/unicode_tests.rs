use ascii_ansi_table::alignment::Alignment;
use ascii_ansi_table::unicode::{
    calculate_unicode_column_widths, display_width, pad_to_width, truncate_to_width, unicode_wrap_text,
};

#[test]
fn test_ascii_display_width() {
    assert_eq!(display_width("hello"), 5);
    assert_eq!(display_width(""), 0);
    assert_eq!(display_width("a"), 1);
}

#[test]
fn test_unicode_display_width() {
    assert_eq!(display_width("你好"), 4);
    assert_eq!(display_width("hello世界"), 9);
    assert!(display_width("😀") >= 1);
}

#[test]
fn test_truncate_to_width() {
    assert_eq!(truncate_to_width("hello world", 5), "hello");
    assert_eq!(truncate_to_width("你好世界", 4), "你好");
    assert_eq!(truncate_to_width("short", 10), "short");
}

#[test]
fn test_pad_to_width() {
    assert_eq!(pad_to_width("hi", 5, Alignment::Left), "hi   ");
    assert_eq!(pad_to_width("hi", 5, Alignment::Right), "   hi");
    assert_eq!(pad_to_width("hi", 5, Alignment::Center), " hi  ");
    assert_eq!(pad_to_width("你", 4, Alignment::Left), "你  ");
    assert_eq!(pad_to_width("你", 4, Alignment::Right), "  你");
}

#[test]
fn test_unicode_column_widths() {
    let data = vec![
        vec!["Name".to_string(), "City".to_string()],
        vec!["John".to_string(), "东京".to_string()],
    ];
    let widths = calculate_unicode_column_widths(&data);
    assert_eq!(widths, vec![4, 4]);
}

#[test]
fn test_unicode_wrap_text() {
    let result = unicode_wrap_text("你好世界测试", 4, false);
    assert_eq!(result, vec!["你好", "世界", "测试"]);

    let result = unicode_wrap_text("hello 世界", 7, true);
    assert_eq!(result, vec!["hello", "世界"]);
}

#[test]
fn test_mixed_unicode_ascii() {
    let text = "Hello 世界 Test";
    let result = unicode_wrap_text(text, 8, true);
    assert!(result.len() >= 2);
}

#[test]
fn unicode_wrap_with_zero_width_keeps_the_text() {
    assert_eq!(unicode_wrap_text("abc def", 0, true), vec!["abc def"]);
    assert_eq!(unicode_wrap_text("", 5, true), vec![""]);
}
