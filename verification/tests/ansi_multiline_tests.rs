use ascii_ansi_table::alignment::ColumnConfig;
use ascii_ansi_table::ansi::colors;
use ascii_ansi_table::ansi_multiline::render_table_with_ansi_wrapping;
use ascii_ansi_table::border::BorderChars;
use ascii_ansi_table::renderer::RenderOptions;
use ascii_ansi_table::table_data::TableData;
use ascii_ansi_table::truncation::TruncationConfig;
use ascii_ansi_table::wrapping::WrapConfig;

#[test]
fn test_ansi_wrapping_integration() {
    let data = TableData::new(vec![
        vec!["Name".to_string(), format!("{}Status with very long text{}", colors::GREEN, colors::RESET)],
        vec!["Alice".to_string(), format!("{}Active and working{}", colors::BLUE, colors::RESET)],
    ]);

    let column_configs = vec![
        ColumnConfig::default().with_width(8),
        ColumnConfig::default().with_width(12).with_wrapping(WrapConfig::new(12)),
    ];

    let border = BorderChars::default();
    let options = RenderOptions::default();
    let result = render_table_with_ansi_wrapping(&data, &border, &options, &column_configs).unwrap();

    assert!(result.contains(colors::GREEN));
    assert!(result.contains(colors::BLUE));
    assert!(result.contains(colors::RESET));

    assert!(result.contains("Name"));
    assert!(result.contains("Alice"));
    assert!(result.contains("Status"));
    assert!(result.contains("Active"));

    let lines: Vec<&str> = result.lines().collect();
    assert!(lines.len() > 4);
}

#[test]
fn test_ansi_wrapping_preserves_colors() {
    let data = TableData::new(vec![vec![format!(
        "{}Multi-line colored text that should wrap nicely{}",
        colors::BOLD,
        colors::RESET
    )]]);

    let column_configs = vec![ColumnConfig::default().with_width(15).with_wrapping(WrapConfig::new(15))];

    let border = BorderChars::default();
    let options = RenderOptions::default();
    let result = render_table_with_ansi_wrapping(&data, &border, &options, &column_configs).unwrap();

    assert!(result.contains(colors::BOLD));
    assert!(result.contains(colors::RESET));
    assert!(result.contains("Multi-line"));
    assert!(result.contains("colored"));
    assert!(result.contains("wrap"));

    let content_lines: Vec<&str> =
        result.lines().filter(|line| line.starts_with("│") && !line.contains("─")).collect();
    assert!(content_lines.len() >= 2);
}

#[test]
fn ansi_widths_ignore_escape_sequences() {
    let data = TableData::new(vec![vec!["\x1b[31mab\x1b[0m".to_string()], vec!["c".to_string()]]);
    let result = render_table_with_ansi_wrapping(&data, &BorderChars::default(), &RenderOptions::default(), &[]).unwrap();
    assert_eq!(result, "┌────┐\n│ \x1b[31mab\x1b[0m │\n│ c  │\n└────┘\n");
}

#[test]
fn ansi_cut_with_ellipsis() {
    let data = TableData::new(vec![vec!["\x1b[1mabcdef\x1b[0m".to_string()]]);
    let configs = vec![ColumnConfig::default()
        .with_width(5)
        .with_truncation(TruncationConfig::new().with_max_width(5).with_ellipsis(".."))];
    let result = render_table_with_ansi_wrapping(&data, &BorderChars::default(), &RenderOptions::default(), &configs).unwrap();
    assert_eq!(result, "┌───────┐\n│ \x1b[1mabc\x1b[0m.. │\n└───────┘\n");
}
