use ascii_ansi_table::alignment::Alignment;
use ascii_ansi_table::builder::quick;
use ascii_ansi_table::builder::{from_template, ColumnBuilder, TableBuilder, TemplateRegistry, ThemedTableBuilder};
use ascii_ansi_table::padding::Padding;
use ascii_ansi_table::table_data::TableData;

#[test]
fn test_table_builder_basic() {
    let result = TableBuilder::new()
        .add_row(vec!["Name".to_string(), "Age".to_string()])
        .add_row(vec!["Alice".to_string(), "30".to_string()])
        .add_row(vec!["Bob".to_string(), "25".to_string()])
        .build();
    assert!(result.is_ok());
    let table = result.unwrap();
    assert!(table.contains("Name"));
    assert!(table.contains("Alice"));
}

#[test]
fn test_table_builder_from_data() {
    let data = TableData::new(vec![
        vec!["A".to_string(), "B".to_string()],
        vec!["1".to_string(), "2".to_string()],
    ]);
    let result = TableBuilder::from_data(data).with_border_style("ascii").build();
    assert!(result.is_ok());
    assert!(result.unwrap().contains("A"));
}

#[test]
fn test_table_builder_from_csv() {
    let csv = "Name,Age\nAlice,30\nBob,25";
    let result = TableBuilder::from_csv(csv, None);
    assert!(result.is_ok());
    let table = result.unwrap().build();
    assert!(table.is_ok());
    assert!(table.unwrap().contains("Alice"));
}

#[test]
fn test_themed_builders() {
    let minimal = ThemedTableBuilder::minimal().add_row(vec!["Test".to_string()]).build();
    assert!(minimal.is_ok());
    let fancy = ThemedTableBuilder::fancy().add_row(vec!["Test".to_string()]).build();
    assert!(fancy.is_ok());
    let data_table = ThemedTableBuilder::data_table().add_row(vec!["123".to_string()]).build();
    assert!(data_table.is_ok());
}

#[test]
fn test_column_builder() {
    let config = ColumnBuilder::new().width(10).left_aligned().padding(Padding::symmetric(2)).build();
    assert_eq!(config.width, Some(10));
    assert_eq!(config.alignment, Alignment::Left);
    assert_eq!(config.padding.left, 2);
}

#[test]
fn test_quick_builders() {
    let result = quick::table(vec![
        vec!["A".to_string(), "B".to_string()],
        vec!["1".to_string(), "2".to_string()],
    ]);
    assert!(result.is_ok());
    let header_result = quick::table_with_header(
        vec!["Name".to_string(), "Age".to_string()],
        vec![vec!["Alice".to_string(), "30".to_string()]],
    );
    assert!(header_result.is_ok());
    let csv_result = quick::csv_table("A,B\n1,2");
    assert!(csv_result.is_ok());
}

#[test]
fn test_table_macro() {
    let result = quick::table_with_header(
        vec!["Name".to_string(), "Age".to_string()],
        vec![vec!["Alice".to_string(), "30".to_string()], vec!["Bob".to_string(), "25".to_string()]],
    );
    assert!(result.is_ok());
    let simple_result = quick::table(vec![vec!["A".to_string(), "B".to_string()], vec!["1".to_string(), "2".to_string()]]);
    assert!(simple_result.is_ok());
}

#[test]
fn test_template_registry() {
    let registry = TemplateRegistry::new();
    let templates = registry.list_templates();
    assert!(templates.contains(&"minimal"));
    assert!(templates.contains(&"fancy"));
    assert!(templates.contains(&"data"));
    let minimal_builder = registry.get("minimal");
    assert!(minimal_builder.is_some());
}

#[test]
fn test_global_templates() {
    let builder = from_template("minimal");
    assert!(builder.is_some());
    let table = builder.unwrap().add_row(vec!["Test".to_string()]).build();
    assert!(table.is_ok());
}

#[test]
fn test_builder_with_validation() {
    let result = TableBuilder::new()
        .add_row(vec!["A".to_string(), "B".to_string()])
        .add_row(vec!["1".to_string(), "2".to_string()])
        .with_validation()
        .build();
    assert!(result.is_ok());
    let invalid_result = TableBuilder::new()
        .add_row(vec!["A".to_string(), "B".to_string()])
        .add_row(vec!["1".to_string()])
        .with_validation()
        .build();
    assert!(invalid_result.is_err());
}

#[test]
fn test_builder_preview() {
    let builder = TableBuilder::new().add_row(vec!["Test".to_string()]).with_border_style("ascii").with_validation();
    let preview = builder.preview_config();
    assert!(preview.contains("Configuration Preview"));
    assert!(preview.contains("Border Style: ascii"));
    assert!(preview.contains("Validation: Enabled"));
}

#[test]
fn test_builder_fluent_api() {
    let result = TableBuilder::new()
        .add_row(vec!["Name".to_string(), "Score".to_string()])
        .add_row(vec!["Alice".to_string(), "95".to_string()])
        .with_header(vec!["Player".to_string(), "Points".to_string()])
        .with_alignment(Alignment::Center)
        .with_width(10)
        .with_top_border()
        .with_bottom_border()
        .with_performance_optimization()
        .build();
    assert!(result.is_ok());
    let table = result.unwrap();
    assert!(table.contains("Player"));
    assert!(table.contains("Alice"));
}

#[test]
fn unknown_styles_and_empty_csv_are_refused() {
    let result = TableBuilder::new().add_row(vec!["x".to_string()]).with_border_style("wavy").build();
    assert_eq!(result.unwrap_err(), "Unknown border style: wavy");
    assert_eq!(TableBuilder::from_csv("  \n\n", None).err().unwrap(), "No data found in CSV");
    assert!(from_template("nope").is_none());
}

#[test]
fn plain_builder_draws_the_exact_table() {
    let result = TableBuilder::new().add_row(vec!["a".to_string(), "bb".to_string()]).with_border_style("ascii").build();
    assert_eq!(result.unwrap(), "+---+----+\n| a | bb |\n+---+----+\n");
}

#[test]
fn registering_a_name_again_replaces_its_template() {
    let mut registry = TemplateRegistry::new();
    let before = registry.list_templates().len();
    registry.register(ascii_ansi_table::builder::TableTemplate::new(
        "minimal",
        TableBuilder::new().with_border_style("norc"),
    ));
    assert_eq!(registry.list_templates().len(), before);
    let b = registry.get("minimal").unwrap();
    assert_eq!(b.border_style, "norc");
}
