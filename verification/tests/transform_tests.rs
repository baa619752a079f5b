use rocat::options::{NumberingMode, Options};
use rocat::transform::{print_lines_to_writer, process_line, TransformerState};

fn default_options() -> Options {
    Options {
        numbering_mode: NumberingMode::NoNumbering,
        show_ends: false,
        squeeze_blank: false,
        show_tabs: false,
        show_nonprinting: false,
        unbuffered: false,
    }
}

fn process_string(input: &str, options: &Options) -> String {
    let lines: Vec<String> = input.lines().map(|l| l.to_string()).collect();
    let mut output = String::new();
    print_lines_to_writer(&lines, options, &mut output);
    output
}

#[test]
fn test_basic_output() {
    let input = "Hello\nWorld";
    let options = default_options();
    let output = process_string(input, &options);
    assert_eq!(output, "Hello\nWorld\n");
}

#[test]
fn test_number_all_lines() {
    let input = "Hello\nWorld";
    let mut options = default_options();
    options.numbering_mode = NumberingMode::All;
    let output = process_string(input, &options);
    assert_eq!(output, "     1\tHello\n     2\tWorld\n");
}

#[test]
fn test_number_nonblank_lines() {
    let input = "Hello\n\nWorld";
    let mut options = default_options();
    options.numbering_mode = NumberingMode::NonBlank;
    let output = process_string(input, &options);
    assert_eq!(output, "     1\tHello\n\n     2\tWorld\n");
}

#[test]
fn test_show_ends() {
    let input = "Hello\nWorld";
    let mut options = default_options();
    options.show_ends = true;
    let output = process_string(input, &options);
    assert_eq!(output, "Hello$\nWorld$\n");
}

#[test]
fn test_squeeze_blank() {
    let input = "Hello\n\n\n\nWorld";
    let mut options = default_options();
    options.squeeze_blank = true;
    let output = process_string(input, &options);
    assert_eq!(output, "Hello\n\nWorld\n");
}

#[test]
fn test_show_tabs() {
    let input = "Hello\tWorld";
    let mut options = default_options();
    options.show_tabs = true;
    let output = process_string(input, &options);
    assert_eq!(output, "Hello^IWorld\n");
}

#[test]
fn test_show_nonprinting() {
    let input = "Hello\u{0001}World";
    let mut options = default_options();
    options.show_nonprinting = true;
    let output = process_string(input, &options);
    assert_eq!(output, "Hello^AWorld\n");
}

#[test]
fn test_multiple_options() {
    let input = "Hello\n\n\tWorld";
    let mut options = default_options();
    options.show_ends = true;
    options.show_tabs = true;
    options.squeeze_blank = true;
    let output = process_string(input, &options);
    assert_eq!(output, "Hello$\n$\n^IWorld$\n");
}

#[test]
fn test_empty_input() {
    let options = default_options();
    assert_eq!(process_string("", &options), "");
}

#[test]
fn test_trailing_newline_normalized() {
    let options = default_options();
    assert_eq!(process_string("Hello\n", &options), "Hello\n");
}

#[test]
fn test_squeeze_counts_whitespace_lines_as_blank() {
    let mut options = default_options();
    options.squeeze_blank = true;
    assert_eq!(process_string("a\n \n\t\nb", &options), "a\n \nb\n");
}

#[test]
fn test_squeeze_single_blank_kept() {
    let mut options = default_options();
    options.squeeze_blank = true;
    assert_eq!(process_string("a\n\nb", &options), "a\n\nb\n");
}

#[test]
fn test_nonblank_numbering_skips_whitespace_line() {
    let mut options = default_options();
    options.numbering_mode = NumberingMode::NonBlank;
    assert_eq!(process_string("a\n \nb", &options), "     1\ta\n \n     2\tb\n");
}

#[test]
fn test_number_all_with_squeeze() {
    let mut options = default_options();
    options.numbering_mode = NumberingMode::All;
    options.squeeze_blank = true;
    assert_eq!(
        process_string("a\n\n\n\nb", &options),
        "     1\ta\n     2\t\n     3\tb\n"
    );
}

#[test]
fn test_tab_not_caret_escaped_by_nonprinting() {
    let mut options = default_options();
    options.show_nonprinting = true;
    assert_eq!(process_string("Hello\tWorld", &options), "Hello\tWorld\n");
}

#[test]
fn test_tab_marker_with_both_tab_and_nonprinting() {
    let mut options = default_options();
    options.show_tabs = true;
    options.show_nonprinting = true;
    assert_eq!(process_string("Hello\tWorld", &options), "Hello^IWorld\n");
}

#[test]
fn test_delete_character_caret_escaped() {
    let mut options = default_options();
    options.show_nonprinting = true;
    assert_eq!(process_string("a\u{7f}b", &options), "a^\u{bf}b\n");
}

#[test]
fn test_nonprinting_off_keeps_control_character() {
    let options = default_options();
    assert_eq!(process_string("a\u{1}b", &options), "a\u{1}b\n");
}

#[test]
fn test_nonprinting_escapes_by_code_point() {
    let mut options = default_options();
    options.show_nonprinting = true;
    // U+00E9 is not ASCII graphic, so it is caret-escaped 64 code points up.
    assert_eq!(process_string("\u{e9}", &options), "^\u{129}\n");
    // ASCII whitespace is never caret-escaped.
    assert_eq!(process_string(" a", &options), " a\n");
}

#[test]
fn test_number_field_grows_past_six_digits() {
    let prefix: Vec<char> = rocat::numbering::number_prefix(1234567);
    let rendered: String = prefix.into_iter().collect();
    assert_eq!(rendered, "1234567\t");
}

#[test]
fn test_number_field_right_aligned() {
    let prefix: Vec<char> = rocat::numbering::number_prefix(42);
    let rendered: String = prefix.into_iter().collect();
    assert_eq!(rendered, "    42\t");
}

#[test]
fn test_process_line_squeeze_keeps_state() {
    let mut options = default_options();
    options.squeeze_blank = true;
    let mut state = TransformerState::new();
    assert_eq!(process_line("", &options, &mut state), Some("\n".to_string()));
    assert!(state.last_was_blank);
    assert_eq!(state.line_number, 1);
    assert_eq!(process_line("", &options, &mut state), None);
    assert!(state.last_was_blank);
    assert_eq!(state.line_number, 1);
    assert_eq!(process_line("x", &options, &mut state), Some("x\n".to_string()));
    assert!(!state.last_was_blank);
}

#[test]
fn test_process_line_counter_advances_only_when_numbered() {
    let mut options = default_options();
    options.numbering_mode = NumberingMode::NonBlank;
    let mut state = TransformerState::new();
    assert_eq!(
        process_line("alpha", &options, &mut state),
        Some("     1\talpha\n".to_string())
    );
    assert_eq!(state.line_number, 2);
    assert_eq!(process_line("  ", &options, &mut state), Some("  \n".to_string()));
    assert_eq!(state.line_number, 2);
    assert_eq!(
        process_line("beta", &options, &mut state),
        Some("     2\tbeta\n".to_string())
    );
    assert_eq!(state.line_number, 3);
}
