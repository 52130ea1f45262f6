use ascii_ansi_table::truncation::{truncate_text, TruncationConfig};

#[test]
fn test_no_truncation_needed() {
    let config = TruncationConfig::new().with_max_width(10);
    let result = truncate_text("short", &config);
    assert_eq!(result, "short");
}

#[test]
fn test_truncation_from_end() {
    let config = TruncationConfig::new().with_max_width(10);
    let result = truncate_text("this is a very long text", &config);
    assert_eq!(result, "this is...");
    assert_eq!(result.len(), 10);
}

#[test]
fn test_truncation_from_start() {
    let config = TruncationConfig::new().with_max_width(10).with_start_truncation();
    let result = truncate_text("this is a very long text", &config);
    assert_eq!(result, "...ng text");
    assert_eq!(result.len(), 10);
}

#[test]
fn test_max_width_too_small() {
    let config = TruncationConfig::new().with_max_width(2).with_ellipsis("...");
    let result = truncate_text("hello", &config);
    assert_eq!(result, "he");
    assert_eq!(result.len(), 2);
}

#[test]
fn test_no_max_width() {
    let config = TruncationConfig::none();
    let result = truncate_text("this text should not be truncated", &config);
    assert_eq!(result, "this text should not be truncated");
}

#[test]
fn test_unicode_truncation() {
    let config = TruncationConfig::new().with_max_width(8);
    let result = truncate_text("héllo wörld", &config);
    assert_eq!(result, "héllo...");
}

#[test]
fn truncation_keeps_text_that_fits_exactly() {
    let config = TruncationConfig::new().with_max_width(5);
    assert_eq!(truncate_text("exact", &config), "exact");
}

#[test]
fn test_custom_ellipsis() {
    let config = TruncationConfig::new().with_max_width(10).with_ellipsis(" [+]");
    let result = truncate_text("this is a very long text", &config);
    assert_eq!(result, "this  [+]");
    assert_eq!(result.len(), 9);
}

#[test]
fn a_word_the_cut_would_split_is_left_out_whole() {
    let config = TruncationConfig::new().with_max_width(8);
    assert_eq!(truncate_text("abc defgh", &config), "abc ...");
    assert_eq!(truncate_text("abcdefghij", &config), "abcde...");
    assert_eq!(truncate_text("abcd efgh", &config), "abcd ...");
}
