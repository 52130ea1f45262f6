use ascii_ansi_table::wrapping::{calculate_wrapped_height, wrap_text, WrapConfig, WrapMode};

#[test]
fn test_no_wrapping_needed() {
    let config = WrapConfig::new(20);
    let result = wrap_text("short text", &config);
    assert_eq!(result, vec!["short text"]);
}

#[test]
fn test_word_wrapping() {
    let config = WrapConfig::new(10);
    let result = wrap_text("this is a very long text that needs wrapping", &config);
    assert_eq!(result, vec!["this is a", "very long", "text that", "needs", "wrapping"]);
}

#[test]
fn test_character_wrapping() {
    let config = WrapConfig::new(5).with_mode(WrapMode::Character);
    let result = wrap_text("verylongword", &config);
    assert_eq!(result, vec!["veryl", "ongwo", "rd"]);
}

#[test]
fn test_long_word_in_word_mode() {
    let config = WrapConfig::new(8);
    let result = wrap_text("short verylongword end", &config);
    assert_eq!(result, vec!["short", "verylong", "word", "end"]);
}

#[test]
fn test_no_wrap_mode() {
    let config = WrapConfig::new(5).with_mode(WrapMode::NoWrap);
    let result = wrap_text("this is very long text", &config);
    assert_eq!(result, vec!["this is very long text"]);
}

#[test]
fn test_empty_text() {
    let config = WrapConfig::new(10);
    let result = wrap_text("", &config);
    assert_eq!(result, vec![""]);
}

#[test]
fn test_calculate_wrapped_height() {
    let config = WrapConfig::new(10);
    let height = calculate_wrapped_height("this is a very long text", &config);
    assert_eq!(height, 3);
}

#[test]
fn test_single_character_per_line() {
    let config = WrapConfig::new(1).with_mode(WrapMode::Character);
    let result = wrap_text("abc", &config);
    assert_eq!(result, vec!["a", "b", "c"]);
}

#[test]
fn wrapped_lines_rejoin_to_the_words() {
    let config = WrapConfig::new(7);
    let text = "alpha beta gamma delta";
    let lines = wrap_text(text, &config);
    assert_eq!(lines.join(" "), text);
    assert!(lines.iter().all(|l| l.len() <= 7));
}
