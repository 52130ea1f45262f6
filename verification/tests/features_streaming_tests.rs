use ascii_ansi_table::features::streaming::{create_string_stream, TableStream};
use ascii_ansi_table::types::{Alignment, ColumnUserConfig, StreamUserConfig};

#[test]
fn test_table_stream_creation() {
    let stream = TableStream::new(None);
    assert!(stream.first_row());
    assert_eq!(stream.row_count(), 0);
}

#[test]
fn test_stream_write_row() {
    let mut stream = TableStream::new(None);

    let row1 = vec!["Name".to_string(), "Age".to_string()];
    let result1 = stream.write_row(&row1).unwrap();
    assert!(result1.contains("Name"));
    assert!(result1.contains("Age"));
    assert!(result1.contains("┌"));

    let row2 = vec!["John".to_string(), "30".to_string()];
    let result2 = stream.write_row(&row2).unwrap();
    assert!(result2.contains("John"));
    assert!(result2.contains("30"));
    assert!(result2.contains("├"));
}

#[test]
fn test_stream_finalize() {
    let mut stream = TableStream::new(None);

    let row = vec!["test".to_string(), "data".to_string()];
    let _ = stream.write_row(&row).unwrap();

    let finalized = stream.finalize();
    assert!(finalized.contains("└"));
}

#[test]
fn test_stream_inconsistent_row_length() {
    let mut stream = TableStream::new(None);

    let row1 = vec!["Name".to_string(), "Age".to_string()];
    let _ = stream.write_row(&row1).unwrap();

    let row2 = vec!["John".to_string()];
    let result = stream.write_row(&row2);
    assert!(result.is_err());
}

#[test]
fn test_create_string_stream() {
    let mut stream = create_string_stream(None);

    let row = vec!["test".to_string(), "data".to_string()];
    let result = stream.write_row(&row).unwrap();
    let finalized = stream.finalize();

    let complete_output = format!("{}{}", result, finalized);
    assert!(complete_output.contains("test"));
    assert!(complete_output.contains("data"));
    assert!(complete_output.contains("┌"));
    assert!(complete_output.contains("└"));
}

#[test]
fn stream_rows_exact_text() {
    let mut stream = create_string_stream(None);
    let first = stream.write_row(&vec!["a".to_string(), "bc".to_string()]).unwrap();
    assert_eq!(
        first,
        "┌──────────┬──────────┐\n│ a        │ bc       │\n"
    );
    let second = stream.write_row(&vec!["d".to_string(), "e".to_string()]).unwrap();
    assert_eq!(
        second,
        "├──────────┼──────────┤\n│ d        │ e        │\n"
    );
    assert_eq!(stream.row_count(), 2);
    assert!(!stream.first_row());
    assert_eq!(stream.finalize(), "└──────────┴──────────┘");
}

#[test]
fn finalize_before_any_row_is_empty() {
    let mut stream = create_string_stream(None);
    assert_eq!(stream.finalize(), "");
}

#[test]
fn stream_columns_from_config() {
    let config = StreamUserConfig {
        columns: Some(vec![
            ColumnUserConfig { width: Some(4), alignment: Some(Alignment::Right), ..Default::default() },
        ]),
        border: None,
        column_default: None,
        single_line: None,
    };
    let mut stream = create_string_stream(Some(config));
    let out = stream.write_row(&vec!["7".to_string()]).unwrap();
    assert_eq!(out, "┌────┐\n│  7 │\n");
}

#[test]
fn stream_wraps_long_cells() {
    let mut stream = create_string_stream(None);
    let out = stream.write_row(&vec!["abcdefghijkl".to_string()]).unwrap();
    assert_eq!(out, "┌──────────┐\n│ abcdefgh │\n│ ijkl     │\n");
}

#[test]
fn test_streaming_example() {
    let mut stream = create_string_stream(None);

    let header = vec!["ID".to_string(), "Name".to_string(), "Status".to_string()];
    let header_output = stream.write_row(&header).unwrap();
    println!("{}", header_output);

    let data_rows = vec![
        vec!["1".to_string(), "Alice".to_string(), "Active".to_string()],
        vec!["2".to_string(), "Bob".to_string(), "Inactive".to_string()],
        vec!["3".to_string(), "Charlie".to_string(), "Pending".to_string()],
    ];

    for (i, row) in data_rows.iter().enumerate() {
        let row_output = stream.write_row(row).unwrap();
        println!("Row {}:", i + 1);
        println!("{}", row_output);
    }

    let footer = stream.finalize();
    println!("{}", footer);
}

#[test]
fn test_streaming_with_config() {
    let config = StreamUserConfig {
        columns: Some(vec![
            ColumnUserConfig { width: Some(4), alignment: Some(Alignment::Center), ..Default::default() },
            ColumnUserConfig { width: Some(12), alignment: Some(Alignment::Left), ..Default::default() },
            ColumnUserConfig { width: Some(8), alignment: Some(Alignment::Right), ..Default::default() },
        ]),
        border: None,
        column_default: None,
        single_line: None,
    };

    let mut stream = create_string_stream(Some(config));

    let streaming_data = vec![
        vec!["ID".to_string(), "Product".to_string(), "Price".to_string()],
        vec!["1".to_string(), "Laptop".to_string(), "$999".to_string()],
        vec!["2".to_string(), "Mouse".to_string(), "$25".to_string()],
        vec!["3".to_string(), "Monitor".to_string(), "$299".to_string()],
    ];

    for row in streaming_data.iter() {
        let output = stream.write_row(row).unwrap();
        println!("{}", output);
    }

    let footer = stream.finalize();
    println!("{}", footer);
}
