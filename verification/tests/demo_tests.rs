use ascii_ansi_table::demo::{
    demo_columns, demo_config, demo_rows, demo_stream_config, demo_stream_widths, parse_usize, stream_demo_step,
    table_demo_output,
};
use ascii_ansi_table::features::streaming::create_string_stream;
use ascii_ansi_table::types::get_border_characters;
use ascii_ansi_table::TableError;

#[test]
fn demo_rows_hold_the_header_and_the_sample_rows() {
    let rows = demo_rows(2, false);
    assert_eq!(rows.len(), 3);
    assert_eq!(rows[0], vec!["ID", "Product", "Price", "Status"]);
    assert_eq!(rows[1], vec!["1", "Gaming\nLaptop", "$124", "Active"]);
    assert_eq!(rows[2], vec!["2", "Wireless\nMouse", "$149", "Sold"]);
    let colored = demo_rows(1, true);
    assert_eq!(colored[1][0], "\u{1b}[37m1\u{1b}[0m");
    assert_eq!(colored[1][3], "\u{1b}[32m✓ Active\u{1b}[0m");
    assert_eq!(demo_rows(16, false)[16][1], "Gaming\nLaptop");
}

#[test]
fn numbers_parse_as_usize_from_str_does() {
    assert_eq!(parse_usize("42"), Some(42));
    assert_eq!(parse_usize("+7"), Some(7));
    assert_eq!(parse_usize(""), None);
    assert_eq!(parse_usize("+"), None);
    assert_eq!(parse_usize("-1"), None);
    assert_eq!(parse_usize("4a"), None);
    assert_eq!(parse_usize("99999999999999999999999"), None);
    assert_eq!(parse_usize(&usize::MAX.to_string()), Some(usize::MAX));
}

#[test]
fn demo_columns_follow_the_widths_asked_for() {
    let widths = |c: Option<Vec<ascii_ansi_table::ColumnUserConfig>>| c.map(|v| v.iter().map(|x| x.width).collect::<Vec<_>>());
    assert_eq!(widths(demo_columns(None)), Some(vec![Some(6), Some(12), Some(8), Some(12)]));
    assert_eq!(widths(demo_columns(Some("4, 12 ,8,12"))), Some(vec![Some(4), Some(12), Some(8), Some(12)]));
    assert_eq!(widths(demo_columns(Some("4,x"))), None);
    assert_eq!(demo_stream_widths(&demo_columns(Some("4,x"))), vec![6, 12, 8, 12]);
    assert_eq!(demo_stream_widths(&demo_columns(Some("3,5"))), vec![3, 5]);
}

#[test]
fn table_demo_draws_the_sample_table_or_refuses_the_border() {
    let out = table_demo_output(3, "honeywell", false, None).unwrap();
    assert!(out.contains("Gaming"));
    assert!(out.contains("$174"));
    assert!(out.starts_with("┌"));
    match table_demo_output(3, "fancy", false, None) {
        Err(TableError::InvalidConfig(m)) => assert_eq!(m, "Unknown border style: fancy"),
        _ => panic!("an unknown border must be refused"),
    }
    assert!(demo_config("ramac", None).unwrap().border.is_some());
}

#[test]
fn stream_demo_steps_take_back_the_last_bottom_line() {
    let config = demo_stream_config("ramac", None).unwrap();
    let widths = demo_stream_widths(&config.columns);
    let data = demo_rows(2, false);
    let border = get_border_characters("ramac").unwrap();
    let mut stream = create_string_stream(Some(config));
    let header = stream.write_row(&data[0]).unwrap();
    assert!(header.contains("ID"));
    let first = stream_demo_step(&mut stream, &data, 0, &widths, &border).unwrap();
    assert!(!first.starts_with("\u{1b}[1A"));
    assert!(first.contains("Gaming"));
    assert!(first.ends_with("+\n"));
    let second = stream_demo_step(&mut stream, &data, 1, &widths, &border).unwrap();
    assert!(second.starts_with("\u{1b}[1A\u{1b}[0K"));
    assert!(second.contains("Wireless"));
}
