use ascii_ansi_table::html::{
    html_escape, html_unescape, table_to_html, table_to_html_with_config, HtmlConfig, HtmlUtils,
};
use ascii_ansi_table::table_data::TableData;

#[test]
fn test_html_config_builder() {
    let config = HtmlConfig::new().with_class("test-table").with_id("my-table").with_responsive().with_striped_rows();
    assert_eq!(config.table_class, Some("test-table".to_string()));
    assert_eq!(config.table_id, Some("my-table".to_string()));
    assert!(config.responsive);
    assert!(config.striped_rows);
}

#[test]
fn test_basic_html_generation() {
    let data = TableData::new(vec![
        vec!["Name".to_string(), "Age".to_string()],
        vec!["Alice".to_string(), "30".to_string()],
        vec!["Bob".to_string(), "25".to_string()],
    ]);
    let result = table_to_html(&data).unwrap();
    assert!(result.contains("<table"));
    assert!(result.contains("<thead>"));
    assert!(result.contains("<tbody>"));
    assert!(result.contains("<th>Name</th>"));
    assert!(result.contains("<td>Alice</td>"));
    assert!(result.contains("</table>"));
}

#[test]
fn test_bootstrap_preset() {
    let config = HtmlConfig::bootstrap();
    assert!(config.table_class.is_some());
    assert!(config.responsive);
    assert!(config.striped_rows);
    assert!(config.hover_effect);
}

#[test]
fn test_html_escaping() {
    assert_eq!(html_escape("<script>"), "&lt;script&gt;");
    assert_eq!(html_escape("A & B"), "A &amp; B");
    assert_eq!(html_escape("\"quoted\""), "&quot;quoted&quot;");
}

#[test]
fn test_html_unescaping() {
    assert_eq!(html_unescape("&lt;script&gt;"), "<script>");
    assert_eq!(html_unescape("A &amp; B"), "A & B");
    assert_eq!(html_unescape("&quot;quoted&quot;"), "\"quoted\"");
}

#[test]
fn test_csv_to_html_conversion() {
    let csv = "Name,Age,City\nAlice,30,New York\nBob,25,London";
    let result = HtmlUtils::csv_to_html(csv, None).unwrap();
    assert!(result.contains("<th>Name</th>"));
    assert!(result.contains("<td>Alice</td>"));
    assert!(result.contains("<td>New York</td>"));
}

#[test]
fn test_complete_document_generation() {
    let table = "<table><tr><td>Test</td></tr></table>";
    let doc = HtmlUtils::complete_document(table, "Test Table");
    assert!(doc.contains("<!DOCTYPE html>"));
    assert!(doc.contains("<title>Test Table</title>"));
    assert!(doc.contains("<h1>Test Table</h1>"));
    assert!(doc.contains(table));
}

#[test]
fn test_material_preset() {
    let config = HtmlConfig::material();
    assert!(config.table_class.is_some());
    assert!(config.table_style.is_some());
    assert!(config.cell_padding.is_some());
}

#[test]
fn test_dark_theme_preset() {
    let config = HtmlConfig::dark();
    assert!(config.table_class.is_some());
    assert!(config.table_style.is_some());
    assert!(config.striped_rows);
}

#[test]
fn test_custom_attributes() {
    let config = HtmlConfig::new().with_attribute("data-sortable", "true").with_attribute("role", "table");
    assert_eq!(config.custom_attributes.len(), 2);
    assert_eq!(config.custom_attributes[0], ("data-sortable".to_string(), "true".to_string()));
    assert_eq!(config.custom_attributes[1], ("role".to_string(), "table".to_string()));
}

#[test]
fn test_no_thead_configuration() {
    let data = TableData::new(vec![
        vec!["Row1".to_string(), "Data1".to_string()],
        vec!["Row2".to_string(), "Data2".to_string()],
    ]);
    let config = HtmlConfig::new().without_thead();
    let result = table_to_html_with_config(&data, config).unwrap();
    assert!(!result.contains("<thead>"));
    assert!(result.contains("<tbody>"));
    assert!(result.contains("<td>Row1</td>"));
}

#[test]
fn test_simple_html_parsing() {
    let html = r#"
            <table>
                <tr>
                    <th>Name</th>
                    <th>Age</th>
                </tr>
                <tr>
                    <td>Alice</td>
                    <td>30</td>
                </tr>
            </table>
        "#;
    let result = HtmlUtils::html_to_table_data(html).unwrap();
    assert_eq!(result.row_count(), 2);
    assert_eq!(result.column_count(), 2);
    assert_eq!(result.rows[0][0], "Name");
    assert_eq!(result.rows[1][0], "Alice");
}

#[test]
fn escaping_then_unescaping_gives_the_text_back() {
    let text = "a<b & \"c\" 'd'>";
    assert_eq!(html_unescape(&html_escape(text)), text);
}

#[test]
fn empty_table_renders_nothing_and_csv_without_rows_is_refused() {
    assert_eq!(table_to_html(&TableData::new(vec![])).unwrap(), "");
    assert_eq!(HtmlUtils::csv_to_html("\n  \n", None).unwrap_err(), "No valid data found in CSV");
    assert_eq!(HtmlUtils::html_to_table_data("<p>hi</p>").unwrap_err(), "No table rows found in HTML");
}

#[test]
fn html_rendering_is_exact_for_one_cell() {
    let data = TableData::new(vec![vec!["H".to_string()], vec!["a&b".to_string()]]);
    let result = table_to_html(&data).unwrap();
    assert_eq!(
        result,
        "<table style=\"border-collapse: collapse\">\n  <thead>\n    <tr>\n      <th>H</th>\n    </tr>\n  </thead>\n  <tbody>\n    <tr>\n      <td>a&amp;b</td>\n    </tr>\n  </tbody>\n</table>\n"
    );
}

#[test]
fn bootstrap_cdn_links_go_before_the_end_of_the_head() {
    let doc = HtmlUtils::with_bootstrap_cdn("<head></head>");
    assert!(doc.starts_with("<head>  <link href="));
    assert!(doc.ends_with("</script>\n</head>"));
}

#[test]
fn html_written_reads_back() {
    let rows = vec![
        vec!["Name".to_string(), "Age".to_string()],
        vec!["Alice".to_string(), "30".to_string()],
        vec!["Bob".to_string(), "25".to_string()],
    ];
    let data = TableData::new(rows.clone());
    let html = table_to_html(&data).unwrap();
    let back = HtmlUtils::html_to_table_data(&html).unwrap();
    assert_eq!(back.rows, rows);
}
