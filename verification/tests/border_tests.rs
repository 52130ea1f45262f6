use ascii_ansi_table::border::{get_border_style, BorderChars};

#[test]
fn test_default_border_chars() {
    let border = BorderChars::default();
    assert_eq!(border.top_left, '┌');
    assert_eq!(border.vertical, '│');
}

#[test]
fn test_ascii_border_chars() {
    let border = BorderChars::ascii();
    assert_eq!(border.top_left, '+');
    assert_eq!(border.vertical, '|');
}

#[test]
fn test_honeywell_border() {
    let border = BorderChars::honeywell();
    assert_eq!(border.top_left, '┌');
    assert_eq!(border.vertical, '│');
}

#[test]
fn test_norc_border() {
    let border = BorderChars::norc();
    assert_eq!(border.top_left, '╔');
    assert_eq!(border.vertical, '║');
}

#[test]
fn test_void_border() {
    let border = BorderChars::void();
    assert_eq!(border.top_left, ' ');
    assert_eq!(border.vertical, ' ');
    assert_eq!(border.horizontal, ' ');
}

#[test]
fn test_get_border_style() {
    assert!(get_border_style("honeywell").is_ok());
    assert!(get_border_style("ramac").is_ok());
    assert!(get_border_style("norc").is_ok());
    assert!(get_border_style("void").is_ok());
    assert!(get_border_style("invalid").is_err());
}

#[test]
fn get_border_style_ignores_letter_case_and_names_unknown_styles() {
    assert_eq!(get_border_style("NoRc").unwrap(), BorderChars::norc());
    assert_eq!(get_border_style("Fancy").unwrap_err(), "Unknown border style: Fancy");
}
