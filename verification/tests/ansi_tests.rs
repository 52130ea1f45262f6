use ascii_ansi_table::alignment::Alignment;
use ascii_ansi_table::ansi::colors;
use ascii_ansi_table::ansi::{
    ansi_display_width, ansi_pad_to_width, ansi_truncate_to_width, parse_ansi_sequences, strip_ansi_sequences,
    AnsiSequence,
};

#[test]
fn ansi_test_strip_ansi_sequences() {
    assert_eq!(strip_ansi_sequences("hello world"), "hello world");
    assert_eq!(strip_ansi_sequences("\x1b[31mred\x1b[0m"), "red");
    assert_eq!(strip_ansi_sequences("\x1b[1;32mbold green\x1b[0m"), "bold green");
    assert_eq!(strip_ansi_sequences("normal \x1b[31mred\x1b[0m normal"), "normal red normal");
}

#[test]
fn test_ansi_display_width() {
    assert_eq!(ansi_display_width("hello"), 5);
    assert_eq!(ansi_display_width("\x1b[31mred\x1b[0m"), 3);
    assert_eq!(ansi_display_width("\x1b[1;32mbold green\x1b[0m"), 10);
}

#[test]
fn test_ansi_truncate_to_width() {
    let text = "\x1b[31mhello world\x1b[0m";
    let result = ansi_truncate_to_width(text, 5);
    assert_eq!(result, "\x1b[31mhello\x1b[0m");
    let short_text = "\x1b[32mhi\x1b[0m";
    let result = ansi_truncate_to_width(short_text, 10);
    assert_eq!(result, short_text);
}

#[test]
fn test_ansi_pad_to_width() {
    let text = "\x1b[31mhi\x1b[0m";
    let result = ansi_pad_to_width(text, 5, Alignment::Left);
    assert_eq!(result, "\x1b[31mhi\x1b[0m   ");
    assert_eq!(ansi_display_width(&result), 5);
    let result = ansi_pad_to_width(text, 5, Alignment::Right);
    assert_eq!(result, "   \x1b[31mhi\x1b[0m");
    assert_eq!(ansi_display_width(&result), 5);
    let result = ansi_pad_to_width(text, 6, Alignment::Center);
    assert_eq!(result, "  \x1b[31mhi\x1b[0m  ");
    assert_eq!(ansi_display_width(&result), 6);
}

#[test]
fn test_parse_ansi_sequences() {
    let sequences = parse_ansi_sequences("\x1b[31mred\x1b[0m");
    assert_eq!(sequences.len(), 2);
    assert_eq!(sequences[0].1, AnsiSequence::Color(31));
    assert_eq!(sequences[1].1, AnsiSequence::Reset);
}

#[test]
fn test_ansi_sequence_display() {
    assert_eq!(AnsiSequence::Reset.to_string(), "\x1b[0m");
    assert_eq!(AnsiSequence::Color(31).to_string(), "\x1b[31m");
    assert_eq!(AnsiSequence::Bold.to_string(), "\x1b[1m");
}

#[test]
fn test_colors_constants() {
    assert_eq!(colors::RED, "\x1b[31m");
    assert_eq!(colors::RESET, "\x1b[0m");
    assert_eq!(colors::BOLD, "\x1b[1m");
}

#[test]
fn parsed_sequences_carry_byte_positions_and_kinds() {
    let seqs = parse_ansi_sequences("é\x1b[44mx\x1b[1;2m\x1b[+97m\x1b[");
    assert_eq!(seqs.len(), 3);
    assert_eq!(seqs[0], (2, AnsiSequence::BackgroundColor(44)));
    assert_eq!(seqs[1], (8, AnsiSequence::Other("\x1b[1;2m".to_string())));
    assert_eq!(seqs[2], (14, AnsiSequence::Color(97)));
}

#[test]
fn ansi_truncate_keeps_sequences_after_the_cut() {
    let result = ansi_truncate_to_width("\x1b[31mab\x1b[0mcd\x1b[1m", 1);
    assert_eq!(result, "\x1b[31ma\x1b[0m\x1b[1m");
}
