use ascii_ansi_table::alignment::Alignment;
use ascii_ansi_table::border::BorderChars;
use ascii_ansi_table::emoji::examples;
use ascii_ansi_table::emoji::{
    calculate_emoji_column_widths, emoji_align_text, emoji_truncate_text, render_emoji_table, EmojiConfig,
    EmojiWidthCalculator,
};
use ascii_ansi_table::renderer::RenderOptions;
use ascii_ansi_table::table_data::TableData;

#[test]
fn test_emoji_config_presets() {
    let terminal_config = EmojiConfig::terminal();
    assert_eq!(terminal_config.emoji_width, 2);
    assert!(terminal_config.zero_width_joiner_aware);
    let web_config = EmojiConfig::web();
    assert_eq!(web_config.emoji_width, 1);
    let conservative_config = EmojiConfig::conservative();
    assert_eq!(conservative_config.emoji_width, 2);
    assert_eq!(conservative_config.regional_indicator_width, 4);
}

#[test]
fn test_custom_emoji_widths() {
    let config = EmojiConfig::new().with_custom_width("😀", 3).with_custom_width("🎉", 1);
    let calculator = EmojiWidthCalculator::new(config);
    assert_eq!(calculator.text_width("😀"), 3);
    assert_eq!(calculator.text_width("🎉"), 1);
}

#[test]
fn test_emoji_alignment() {
    let config = EmojiConfig::terminal();
    let left = emoji_align_text("😀", 5, Alignment::Left, &config);
    assert_eq!(left, "😀   ");
    let right = emoji_align_text("😀", 5, Alignment::Right, &config);
    assert_eq!(right, "   😀");
    let center = emoji_align_text("😀", 5, Alignment::Center, &config);
    assert_eq!(center, " 😀  ");
}

#[test]
fn test_emoji_truncation() {
    let config = EmojiConfig::terminal();
    let result = emoji_truncate_text("Hello 😀 World", 8, &config, "...");
    assert!(result.len() <= 8);
    assert!(result.ends_with("..."));
}

#[test]
fn test_emoji_column_width_calculation() {
    let config = EmojiConfig::terminal();
    let rows = vec![
        vec!["😀".to_string(), "Short".to_string()],
        vec!["A".to_string(), "Very Long Text".to_string()],
    ];
    let widths = calculate_emoji_column_widths(&rows, &config);
    assert_eq!(widths[0], 2);
    assert_eq!(widths[1], 14);
}

#[test]
fn test_zwj_sequences() {
    let config = EmojiConfig::terminal();
    let calculator = EmojiWidthCalculator::new(config);
    let width = calculator.text_width("👨‍💻");
    assert_eq!(width, 2);
}

#[test]
fn test_skin_tone_modifiers() {
    let config = EmojiConfig::terminal();
    let calculator = EmojiWidthCalculator::new(config);
    assert_eq!(calculator.text_width("👍"), 2);
    assert_eq!(calculator.text_width("👍🏽"), 2);
}

#[test]
fn test_variation_selectors() {
    let mut config = EmojiConfig::terminal();
    config.variation_selector_width = 0;
    let calculator = EmojiWidthCalculator::new(config);
    let base_width = calculator.text_width("❤");
    let with_vs_width = calculator.text_width("❤️");
    assert_eq!(base_width, with_vs_width);
}

#[test]
fn test_emoji_examples() {
    let table = examples::create_test_table();
    assert_eq!(table.row_count(), 5);
    assert_eq!(table.column_count(), 3);
    let config = EmojiConfig::terminal();
    let result = render_emoji_table(&table, &BorderChars::default(), &RenderOptions::default(), &config);
    assert!(result.is_ok());
    let output = result.unwrap();
    assert!(output.contains("😀"));
    assert!(output.contains("🇺🇸"));
    assert!(output.contains("👨‍💻"));
}

#[test]
fn emoji_test_empty_table_handling() {
    let empty_table = TableData::new(vec![]);
    let config = EmojiConfig::default();
    let result = render_emoji_table(&empty_table, &BorderChars::default(), &RenderOptions::default(), &config);
    assert!(result.is_ok());
    assert_eq!(result.unwrap(), "");
}

#[test]
fn a_later_custom_width_replaces_an_earlier_one() {
    let config = EmojiConfig::new().with_custom_width("x", 5).with_custom_width("x", 7);
    assert_eq!(config.custom_widths.len(), 1);
    assert_eq!(EmojiWidthCalculator::new(config).text_width("x"), 7);
}

#[test]
fn emoji_table_is_drawn_exactly() {
    let table = TableData::new(vec![vec!["😀".to_string(), "a".to_string()]]);
    let result =
        render_emoji_table(&table, &BorderChars::ascii(), &RenderOptions::default(), &EmojiConfig::terminal()).unwrap();
    assert_eq!(result, "+----+---+\n| 😀 | a |\n+----+---+\n");
}

#[test]
fn truncating_keeps_the_first_character_of_a_sequence() {
    let config = EmojiConfig::terminal();
    assert_eq!(emoji_truncate_text("a👍🏽bcdef", 6, &config, ".."), "a👍b..");
}

#[test]
fn test_flag_emoji_width() {
    let config = EmojiConfig::terminal();
    let calculator = EmojiWidthCalculator::new(config);
    assert_eq!(calculator.text_width("🇺🇸"), 2);
    assert_eq!(calculator.text_width("🇬🇧"), 2);
}

#[test]
fn lone_regional_indicator_is_half_a_flag() {
    let calculator = EmojiWidthCalculator::new(EmojiConfig::terminal());
    assert_eq!(calculator.text_width("\u{1F1FA}"), 1);
    assert_eq!(calculator.text_width("\u{1F1FA}\u{1F1F8}\u{1F1FA}"), 3);
}

#[test]
fn test_emoji_width_calculator() {
    let config = EmojiConfig::terminal();
    let calculator = EmojiWidthCalculator::new(config);
    assert_eq!(calculator.text_width("😀"), 2);
    assert_eq!(calculator.text_width("A"), 1);
    assert_eq!(calculator.text_width("Hello 😀 World"), 13);
}
