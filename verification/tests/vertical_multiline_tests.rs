use ascii_ansi_table::alignment::ColumnConfig;
use ascii_ansi_table::border::BorderChars;
use ascii_ansi_table::renderer::RenderOptions;
use ascii_ansi_table::table_data::TableData;
use ascii_ansi_table::vertical_alignment::VerticalAlignment;
use ascii_ansi_table::vertical_multiline::render_table_with_vertical_alignment;
use ascii_ansi_table::wrapping::WrapConfig;

fn content_lines(result: &str) -> Vec<&str> {
    result.lines().filter(|line| line.starts_with("│") && !line.contains("─")).collect()
}

#[test]
fn test_vertical_alignment_top() {
    let data = TableData::new(vec![
        vec!["Short".to_string(), "This is a very long text that will wrap into multiple lines".to_string()],
        vec!["A".to_string(), "B".to_string()],
    ]);

    let column_configs = vec![
        ColumnConfig::default().with_width(8).with_vertical_alignment(VerticalAlignment::Top),
        ColumnConfig::default()
            .with_width(15)
            .with_wrapping(WrapConfig::new(15))
            .with_vertical_alignment(VerticalAlignment::Top),
    ];

    let border = BorderChars::default();
    let options = RenderOptions::default();
    let result = render_table_with_vertical_alignment(&data, &border, &options, &column_configs).unwrap();

    assert!(result.contains("Short"));
    assert!(result.contains("This is a very"));
    assert!(result.contains("long text"));
    assert!(content_lines(&result).len() >= 4);
}

#[test]
fn test_vertical_alignment_middle() {
    let data = TableData::new(vec![vec!["Short".to_string(), "Line1\nLine2\nLine3\nLine4\nLine5".to_string()]]);

    let column_configs = vec![
        ColumnConfig::default().with_width(8).with_vertical_alignment(VerticalAlignment::Middle),
        ColumnConfig::default().with_width(15).with_vertical_alignment(VerticalAlignment::Middle),
    ];

    let border = BorderChars::default();
    let options = RenderOptions::default();
    let result = render_table_with_vertical_alignment(&data, &border, &options, &column_configs).unwrap();

    assert!(result.contains("Short"));
    assert!(content_lines(&result).len() >= 3);
}

#[test]
fn test_vertical_alignment_bottom() {
    let data = TableData::new(vec![vec!["Short".to_string(), "Multi\nLine\nContent".to_string()]]);

    let column_configs = vec![
        ColumnConfig::default().with_width(8).with_vertical_alignment(VerticalAlignment::Bottom),
        ColumnConfig::default().with_width(15).with_vertical_alignment(VerticalAlignment::Bottom),
    ];

    let border = BorderChars::default();
    let options = RenderOptions::default();
    let result = render_table_with_vertical_alignment(&data, &border, &options, &column_configs).unwrap();

    assert!(result.contains("Short"));
    assert!(result.contains("Multi"));
    assert!(result.contains("Content"));
    assert!(content_lines(&result).len() >= 3);
}

#[test]
fn vertical_placement_exact_text() {
    let data = TableData::new(vec![vec!["a".to_string(), "x\ny\nz".to_string()]]);
    let configs = vec![
        ColumnConfig::default().with_width(1).with_vertical_alignment(VerticalAlignment::Bottom),
        ColumnConfig::default().with_width(1),
    ];
    let result = render_table_with_vertical_alignment(&data, &BorderChars::default(), &RenderOptions::default(), &configs).unwrap();
    assert_eq!(result, "┌───┬───┐\n│  │ x │\n│  │ y │\n│ a │ z │\n└───┴───┘\n");
}
