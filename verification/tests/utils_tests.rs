use ascii_ansi_table::types::Alignment;
use ascii_ansi_table::utils::ansi::{calculate_display_width, pad_ansi_string, strip_ansi_sequences, AnsiString};
use ascii_ansi_table::utils::formatting::{
    calculate_maximum_column_widths, count_space_sequence, distribute_unevenly, group_by_sizes, normalize_string,
    validate_table_data,
};
use ascii_ansi_table::utils::unicode::{calculate_string_width, justify_string, pad_string, truncate_string};
use ascii_ansi_table::utils::wrapping::{calculate_cell_height, wrap_cell, wrap_text};

#[test]
fn test_calculate_display_width() {
    assert_eq!(calculate_display_width("hello"), 5);
    assert_eq!(calculate_display_width("\u{1b}[31mhello\u{1b}[39m"), 5);
    assert_eq!(calculate_display_width("测试"), 4);
}

#[test]
fn test_strip_ansi_sequences() {
    assert_eq!(strip_ansi_sequences("hello"), "hello");
    assert_eq!(strip_ansi_sequences("\u{1b}[31mhello\u{1b}[39m"), "hello");
    assert_eq!(strip_ansi_sequences("\u{1b}[31m\u{1b}[1mhello\u{1b}[22m\u{1b}[39m"), "hello");
}

#[test]
fn test_ansi_string_slice() {
    let text = "\u{1b}[31mhello world\u{1b}[39m";
    let ansi_str = AnsiString::new(text.to_string());
    let sliced = ansi_str.slice(0, 5);
    assert_eq!(calculate_display_width(&sliced.content), 5);
}

#[test]
fn test_pad_ansi_string() {
    let text = "\u{1b}[31mhello\u{1b}[39m";
    let padded = pad_ansi_string(text, 10, Alignment::Center);
    assert_eq!(calculate_display_width(&padded.content), 10);
}

#[test]
fn test_normalize_string() {
    assert!(normalize_string("hello").is_ok());
    assert!(normalize_string("hello\nworld").is_ok());
    assert!(normalize_string("test\u{0000}").is_err());
}

#[test]
fn test_validate_table_data() {
    let valid_data = vec![vec!["a".to_string(), "b".to_string()], vec!["c".to_string(), "d".to_string()]];
    assert!(validate_table_data(&valid_data).is_ok());
    let invalid_data = vec![vec!["a".to_string(), "b".to_string()], vec!["c".to_string()]];
    assert!(validate_table_data(&invalid_data).is_err());
}

#[test]
fn test_calculate_maximum_column_widths() {
    let data = vec![
        vec!["short".to_string(), "longer text".to_string()],
        vec!["a".to_string(), "b".to_string()],
    ];
    let widths = calculate_maximum_column_widths(&data);
    assert_eq!(widths, vec![5, 11]);
}

#[test]
fn test_group_by_sizes() {
    let data = vec![1, 2, 3, 4, 5];
    let sizes = vec![2, 2, 1];
    let grouped = group_by_sizes(&data, &sizes);
    assert_eq!(grouped, vec![vec![1, 2], vec![3, 4], vec![5]]);
}

#[test]
fn test_distribute_unevenly() {
    assert_eq!(distribute_unevenly(10, 3), vec![4, 3, 3]);
    assert_eq!(distribute_unevenly(7, 3), vec![3, 2, 2]);
    assert_eq!(distribute_unevenly(0, 3), vec![0, 0, 0]);
}

#[test]
fn test_count_space_sequence() {
    assert_eq!(count_space_sequence("   hello"), 3);
    assert_eq!(count_space_sequence("hello"), 0);
    assert_eq!(count_space_sequence(""), 0);
}

#[test]
fn test_calculate_string_width() {
    assert_eq!(calculate_string_width("hello"), 5);
    assert_eq!(calculate_string_width("测试"), 4);
    assert_eq!(calculate_string_width("🌟"), 2);
}

#[test]
fn test_truncate_string() {
    assert_eq!(truncate_string("hello world", 5), "hello");
    assert_eq!(truncate_string("测试文本", 6), "测试文");
    assert_eq!(truncate_string("short", 10), "short");
}

#[test]
fn test_pad_string() {
    assert_eq!(pad_string("hello", 10, Alignment::Left), "hello     ");
    assert_eq!(pad_string("hello", 10, Alignment::Right), "     hello");
    assert_eq!(pad_string("hello", 10, Alignment::Center), "  hello   ");
}

#[test]
fn test_justify_string() {
    assert_eq!(justify_string("hello world", 15), "hello     world");
    assert_eq!(justify_string("a b c", 7), "a  b  c");
    assert_eq!(justify_string("single", 10), "single");
}

#[test]
fn test_wrap_text_by_words() {
    let text = "This is a long line that should be wrapped";
    let result = wrap_text(text, 10, true);
    assert_eq!(result, vec!["This is a", "long line", "that", "should be", "wrapped"]);
}

#[test]
fn test_wrap_text_by_characters() {
    let text = "verylongwordthatshouldbewrapped";
    let result = wrap_text(text, 10, false);
    assert_eq!(result, vec!["verylongwo", "rdthatshou", "ldbewrappe", "d"]);
}

#[test]
fn test_wrap_cell() {
    let result = wrap_cell("hello world", 5, true);
    assert_eq!(result, vec!["hello", "world"]);
}

#[test]
fn test_wrap_cell_empty() {
    let result = wrap_cell("", 5, true);
    assert_eq!(result, vec![""]);
}

#[test]
fn test_calculate_cell_height() {
    let text = "This is a long line that should be wrapped";
    let height = calculate_cell_height(text, 10, true);
    assert_eq!(height, 5);
}

#[test]
fn test_wrap_text_with_ansi() {
    let text = "\u{1b}[31mRed text\u{1b}[0m that should be wrapped";
    let result = wrap_text(text, 10, true);
    assert!(!result.is_empty());
}

#[test]
fn test_ansi_wrapping_fix() {
    let text = "\u{1b}[31mThis is a long red text that should be wrapped\u{1b}[0m";
    let result = wrap_text(text, 10, true);
    assert!(result.len() > 1, "Should wrap into multiple lines");
    for (i, line) in result.iter().enumerate() {
        if i < result.len() - 1 {
            assert!(line.ends_with("\u{1b}[0m"), "Line {} should end with reset: '{}'", i, line);
        }
    }
    for (i, line) in result.iter().enumerate() {
        if i > 0 {
            assert!(line.starts_with("\u{1b}[31m"), "Line {} should start with red color: '{}'", i, line);
        }
    }
}

#[test]
fn test_multiple_ansi_sequences() {
    let text = "\u{1b}[31m\u{1b}[1mBold red text that should be wrapped\u{1b}[0m";
    let result = wrap_text(text, 10, true);
    assert!(result.len() > 1, "Should wrap into multiple lines");
    for (i, line) in result.iter().enumerate() {
        if i < result.len() - 1 {
            assert!(line.ends_with("\u{1b}[0m"), "Line {} should end with reset: '{}'", i, line);
        }
    }
    for (i, line) in result.iter().enumerate() {
        if i > 0 {
            assert!(line.starts_with("\u{1b}[31m\u{1b}[1m"), "Line {} should start with red+bold: '{}'", i, line);
        }
    }
}

#[test]
fn test_wrap_text_with_repeated_newlines() {
    let text = "\n".repeat(10);
    let result = wrap_text(&text, 20, true);
    assert_eq!(result.len(), 11, "Should have 11 lines for 10 newlines");
    for (i, line) in result.iter().enumerate() {
        assert_eq!(line, "", "Line {} should be empty", i);
    }
}

#[test]
fn distribute_unevenly_sums_to_the_total() {
    let parts = distribute_unevenly(17, 5);
    assert_eq!(parts.iter().sum::<usize>(), 17);
    assert_eq!(parts, vec![4, 4, 3, 3, 3]);
}
