use ascii_ansi_table::alignment::ColumnConfig;
use ascii_ansi_table::table_data::TableData;
use ascii_ansi_table::validation::{
    is_table_valid, validate_table, validation_summary, TableValidator, ValidationConfig, ValidationError,
    ValidationResult,
};

#[test]
fn test_validation_error_display() {
    let error = ValidationError::EmptyTable;
    assert!(error.message().contains("empty"));

    let inconsistent = ValidationError::InconsistentRowLength { row_index: 1, expected: 3, actual: 2 };
    assert!(inconsistent.message().contains("Row 1"));
}

#[test]
fn test_validation_result() {
    let mut result = ValidationResult::new();
    assert!(result.is_valid);
    assert_eq!(result.performance_score, 100);

    result.add_error(ValidationError::EmptyTable);
    assert!(!result.is_valid);
    assert!(result.performance_score < 100);

    result.add_warning(ValidationError::PerformanceWarning {
        issue: "test".to_string(),
        recommendation: "test".to_string(),
    });
    assert!(result.has_issues());
}

#[test]
fn test_validation_config_presets() {
    let default = ValidationConfig::default();
    assert!(default.max_columns.is_some());
    assert!(!default.allow_inconsistent_rows);

    let strict = ValidationConfig::strict();
    assert!(strict.max_columns.unwrap() < default.max_columns.unwrap());

    let permissive = ValidationConfig::permissive();
    assert!(permissive.max_columns.is_none());
    assert!(permissive.allow_inconsistent_rows);
}

#[test]
fn test_valid_table_validation() {
    let data = TableData::new(vec![
        vec!["Name".to_string(), "Age".to_string()],
        vec!["Alice".to_string(), "30".to_string()],
        vec!["Bob".to_string(), "25".to_string()],
    ]);
    let validator = TableValidator::new(ValidationConfig::default());
    let result = validator.validate(&data);
    assert!(result.is_valid);
    assert_eq!(result.errors.len(), 0);
}

#[test]
fn test_empty_table_validation() {
    let data = TableData::new(vec![]);
    let validator = TableValidator::new(ValidationConfig::default());
    let result = validator.validate(&data);
    assert!(!result.is_valid);
    assert!(result.errors.iter().any(|e| matches!(e, ValidationError::EmptyTable)));
}

#[test]
fn test_inconsistent_row_validation() {
    let data = TableData::new(vec![
        vec!["A".to_string(), "B".to_string(), "C".to_string()],
        vec!["1".to_string(), "2".to_string()],
    ]);
    let validator = TableValidator::new(ValidationConfig::default());
    let result = validator.validate(&data);
    assert!(!result.is_valid);
    assert!(result.errors.iter().any(|e| matches!(e, ValidationError::InconsistentRowLength { .. })));
}

#[test]
fn test_unicode_content_detection() {
    let data = TableData::new(vec![
        vec!["Name".to_string(), "Location".to_string()],
        vec!["Alice".to_string(), "北京".to_string()],
        vec!["Bob".to_string(), "Café".to_string()],
    ]);
    let validator = TableValidator::new(ValidationConfig::default());
    let result = validator.validate(&data);
    assert!(result.is_valid);
    assert!(result.info.iter().any(|i| matches!(i, ValidationError::InvalidCellContent { .. })));
}

#[test]
fn test_performance_warnings() {
    let rows: Vec<Vec<String>> = (0..2000).map(|i| vec![format!("Row {}", i), "Data".to_string()]).collect();
    let data = TableData::new(rows);
    let validator = TableValidator::new(ValidationConfig::default());
    let result = validator.validate(&data);
    assert!(result.warnings.iter().any(|w| matches!(w, ValidationError::PerformanceWarning { .. })));
}

#[test]
fn test_quick_validation_functions() {
    let valid_data = TableData::new(vec![
        vec!["A".to_string(), "B".to_string()],
        vec!["1".to_string(), "2".to_string()],
    ]);
    assert!(is_table_valid(&valid_data));
    let summary = validation_summary(&valid_data);
    assert!(summary.contains("✅"));

    let empty_data = TableData::new(vec![]);
    assert!(!is_table_valid(&empty_data));
    let empty_summary = validation_summary(&empty_data);
    assert!(empty_summary.contains("Issues found"));
}

#[test]
fn test_validation_report() {
    let data = TableData::new(vec![vec!["A".to_string(), "B".to_string()], vec!["1".to_string()]]);
    let result = validate_table(&data);
    let report = result.report();
    assert!(report.contains("Validation Report"));
    assert!(report.contains("ERRORS"));
    assert!(report.contains("Performance score"));
}

#[test]
fn test_column_config_validation() {
    let data = TableData::new(vec![
        vec!["A".to_string(), "B".to_string()],
        vec!["1".to_string(), "2".to_string()],
    ]);
    let configs = vec![ColumnConfig::new()];
    let validator = TableValidator::new(ValidationConfig::default());
    let result = validator.validate_with_config(&data, &configs);
    assert!(result.warnings.iter().any(|w| matches!(w, ValidationError::ConfigurationIssue { .. })));
}

#[test]
fn score_drops_twenty_per_error_and_five_per_warning() {
    let mut result = ValidationResult::new();
    result.add_error(ValidationError::EmptyTable);
    assert_eq!(result.performance_score, 80);
    result.add_warning(ValidationError::ConfigurationIssue { issue: "x".to_string() });
    assert_eq!(result.performance_score, 75);
    assert_eq!(result.error_count(), 1);
    assert_eq!(result.warning_count(), 1);
}

#[test]
fn findings_carry_their_kind_and_numbers() {
    let data = TableData::new(vec![vec!["a".to_string(), "b".to_string()], vec!["c".to_string()]]);
    let result = TableValidator::new(ValidationConfig::default()).validate(&data);
    assert_eq!(
        result.errors,
        vec![ValidationError::InconsistentRowLength { row_index: 1, expected: 2, actual: 1 }]
    );
    assert!(!result.is_valid);
}
