use ascii_ansi_table::renderer::RenderOptions;

#[test]
fn test_default_render_options() {
    let options = RenderOptions::default();
    assert!(options.show_top_border);
    assert!(options.show_bottom_border);
    assert!(!options.show_row_separators);
}

#[test]
fn test_no_horizontal_lines() {
    let options = RenderOptions::no_horizontal_lines();
    assert!(!options.show_top_border);
    assert!(!options.show_bottom_border);
    assert!(!options.show_row_separators);
}

#[test]
fn with_row_separators_shows_every_line() {
    let options = RenderOptions::with_row_separators();
    assert!(options.show_top_border && options.show_bottom_border && options.show_row_separators);
}
