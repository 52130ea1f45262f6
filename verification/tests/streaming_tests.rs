use ascii_ansi_table::alignment::ColumnConfig;
use ascii_ansi_table::border::BorderChars;
use ascii_ansi_table::renderer::RenderOptions;
use ascii_ansi_table::streaming::{StreamingTableBuilder, StreamingTableConfig, StreamingTableWriter};

fn joined(chunks: Vec<String>) -> String {
    chunks.concat()
}

#[test]
fn test_streaming_table_writer() {
    let config = StreamingTableConfig::new().with_column_configs(vec![
        ColumnConfig::new().with_width(8),
        ColumnConfig::new().with_width(10),
    ]);

    let mut writer = StreamingTableWriter::new(config);
    let mut output = joined(writer.initialize(vec![8, 10]));

    output.push_str(&joined(writer.add_row(&["Name".to_string(), "Age".to_string()]).unwrap()));
    output.push_str(&joined(writer.add_row(&["Alice".to_string(), "30".to_string()]).unwrap()));
    output.push_str(&joined(writer.add_row(&["Bob".to_string(), "25".to_string()]).unwrap()));
    output.push_str(&joined(writer.finalize()));

    assert!(output.contains("Name"));
    assert!(output.contains("Alice"));
    assert!(output.contains("Bob"));
    assert!(output.contains("│"));
    assert!(output.contains("┌"));
    assert!(output.contains("└"));
}

#[test]
fn test_streaming_batch_add() {
    let config = StreamingTableConfig::default();
    let mut writer = StreamingTableWriter::new(config);

    let rows = vec![
        vec!["Header 1".to_string(), "Header 2".to_string()],
        vec!["Data 1".to_string(), "Data 2".to_string()],
        vec!["Data 3".to_string(), "Data 4".to_string()],
    ];

    let mut output = joined(writer.add_rows(&rows).unwrap());
    output.push_str(&joined(writer.finalize()));

    assert!(output.contains("Header 1"));
    assert!(output.contains("Data 1"));
    assert!(output.contains("Data 3"));
}

#[test]
fn test_stream_table_function() {
    let rows = vec![
        vec!["A".to_string(), "B".to_string()],
        vec!["1".to_string(), "2".to_string()],
        vec!["3".to_string(), "4".to_string()],
    ];

    let config = StreamingTableConfig::default();
    let mut writer = StreamingTableWriter::new(config);
    let mut output = String::new();
    for row in rows.iter() {
        output.push_str(&joined(writer.add_row(row).unwrap()));
    }
    output.push_str(&joined(writer.finalize()));

    assert!(output.contains("A"));
    assert!(output.contains("B"));
    assert!(output.contains("1"));
    assert!(output.contains("2"));
    assert!(output.contains("3"));
    assert!(output.contains("4"));
}

#[test]
fn test_streaming_builder() {
    let rows = vec![
        vec!["Name".to_string(), "Score".to_string()],
        vec!["Alice".to_string(), "95".to_string()],
        vec!["Bob".to_string(), "87".to_string()],
    ];

    let mut writer = StreamingTableBuilder::new()
        .with_border(BorderChars::default())
        .with_auto_flush()
        .build();
    let mut output = String::new();
    for row in rows.iter() {
        output.push_str(&joined(writer.add_row(row).unwrap()));
    }
    output.push_str(&joined(writer.finalize()));

    assert!(output.contains("Name"));
    assert!(output.contains("Alice"));
    assert!(output.contains("95"));
}

#[test]
fn test_column_mismatch_error() {
    let config = StreamingTableConfig::default();
    let mut writer = StreamingTableWriter::new(config);

    let _ = writer.initialize(vec![10, 10]);

    let result = writer.add_row(&["A".to_string(), "B".to_string(), "C".to_string()]);
    assert!(result.is_err());
    assert_eq!(result.unwrap_err(), "Row has 3 columns, expected 2");
}

#[test]
fn test_auto_column_detection() {
    let mut writer = StreamingTableWriter::new(StreamingTableConfig::default());
    let mut output = joined(writer.add_row(&["Header 1".to_string(), "Header 2".to_string()]).unwrap());
    output.push_str(&joined(writer.add_row(&["Data 1".to_string(), "Data 2".to_string()]).unwrap()));
    output.push_str(&joined(writer.finalize()));
    assert!(output.contains("Header 1"));
    assert!(output.contains("Data 1"));
}

#[test]
fn test_buffering() {
    let config = StreamingTableConfig::new().with_buffer_size(50);
    let mut writer = StreamingTableWriter::new(config);
    let mut output = String::new();
    let mut handed_out_early = false;
    for i in 0..10 {
        let chunks = writer.add_row(&[format!("Row {}", i), format!("Data {}", i)]).unwrap();
        if !chunks.is_empty() {
            handed_out_early = true;
        }
        output.push_str(&joined(chunks));
    }
    output.push_str(&joined(writer.finalize()));
    assert!(output.contains("Row 0"));
    assert!(output.contains("Row 9"));
    assert!(handed_out_early);
}

#[test]
fn streaming_exact_text() {
    let mut writer = StreamingTableWriter::new(StreamingTableConfig::new().with_options(RenderOptions::with_row_separators()));
    let first = joined(writer.add_row(&["ab".to_string(), "c".to_string()]).unwrap());
    assert_eq!(first, "");
    let second = joined(writer.add_row(&["d".to_string(), "ef".to_string()]).unwrap());
    assert_eq!(second, "");
    let rest = joined(writer.finalize());
    assert_eq!(
        rest,
        "┌────┬───┐\n│ ab │ c │\n├────┼───┤\n│ d  │ ef │\n└────┴───┘\n"
    );
}

#[test]
fn flush_on_row_hands_out_each_row() {
    let mut writer = StreamingTableBuilder::new().with_auto_flush().build();
    let first = writer.add_row(&["x".to_string()]).unwrap();
    assert_eq!(first, vec!["┌───┐\n│ x │\n".to_string()]);
    let last = writer.finalize();
    assert_eq!(last, vec!["└───┘\n".to_string()]);
}
