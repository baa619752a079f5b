use rocat::options::{is_flag, parse_options, source_tokens, wants_help, NumberingMode, Options};
use rocat::transform::print_lines_to_writer;

fn args(tokens: &[&str]) -> Vec<String> {
    tokens.iter().map(|t| t.to_string()).collect()
}

#[test]
fn test_is_flag_recognizes_the_fixed_set() {
    for flag in ["-n", "-b", "-e", "-E", "-s", "-t", "-T", "-u", "-v", "-h", "--help", "-?"] {
        assert!(is_flag(flag));
    }
    assert!(!is_flag("file.txt"));
    assert!(!is_flag("-N"));
    assert!(!is_flag("-"));
    assert!(!is_flag(""));
    assert!(!is_flag("\u{2010}n"));
}

#[test]
fn test_parse_options_defaults() {
    let opts: Options = parse_options(&args(&["prog", "file.txt"]));
    assert_eq!(opts.numbering_mode, NumberingMode::NoNumbering);
    assert!(!opts.show_ends);
    assert!(!opts.squeeze_blank);
    assert!(!opts.show_tabs);
    assert!(!opts.show_nonprinting);
    assert!(!opts.unbuffered);
}

#[test]
fn test_parse_options_each_flag() {
    assert_eq!(parse_options(&args(&["prog", "-n"])).numbering_mode, NumberingMode::All);
    assert_eq!(parse_options(&args(&["prog", "-b"])).numbering_mode, NumberingMode::NonBlank);
    assert!(parse_options(&args(&["prog", "-e"])).show_ends);
    assert!(parse_options(&args(&["prog", "-E"])).show_ends);
    assert!(parse_options(&args(&["prog", "-s"])).squeeze_blank);
    assert!(parse_options(&args(&["prog", "-t"])).show_tabs);
    assert!(parse_options(&args(&["prog", "-T"])).show_tabs);
    assert!(parse_options(&args(&["prog", "-v"])).show_nonprinting);
    assert!(parse_options(&args(&["prog", "-u"])).unbuffered);
}

#[test]
fn test_parse_options_number_all_wins_over_nonblank() {
    let both = parse_options(&args(&["prog", "-b", "-n", "x"]));
    assert_eq!(both.numbering_mode, NumberingMode::All);
    let reversed = parse_options(&args(&["prog", "-n", "-b", "x"]));
    assert_eq!(reversed.numbering_mode, NumberingMode::All);
}

#[test]
fn test_precedence_behaves_as_number_all() {
    let opts = parse_options(&args(&["prog", "-b", "-n"]));
    let lines = vec!["Hello".to_string(), "".to_string(), "World".to_string()];
    let mut output = String::new();
    print_lines_to_writer(&lines, &opts, &mut output);
    assert_eq!(output, "     1\tHello\n     2\t\n     3\tWorld\n");
}

#[test]
fn test_source_tokens_skips_flags_and_keeps_order() {
    let srcs = source_tokens(&args(&["prog", "-n", "a.txt", "-s", "b.txt"]));
    assert_eq!(srcs, vec!["a.txt".to_string(), "b.txt".to_string()]);
}

#[test]
fn test_source_tokens_ignores_program_name() {
    let srcs = source_tokens(&args(&["prog"]));
    assert!(srcs.is_empty());
    let flags_only = source_tokens(&args(&["prog", "-n", "-s"]));
    assert!(flags_only.is_empty());
}

#[test]
fn test_source_tokens_dash_is_a_literal_path() {
    let srcs = source_tokens(&args(&["prog", "-", "a.txt"]));
    assert_eq!(srcs, vec!["-".to_string(), "a.txt".to_string()]);
}

#[test]
fn test_wants_help_first_position_only() {
    assert!(wants_help(&args(&["prog", "-h"])));
    assert!(wants_help(&args(&["prog", "--help", "x"])));
    assert!(wants_help(&args(&["prog", "-?"])));
    assert!(!wants_help(&args(&["prog"])));
    assert!(!wants_help(&args(&["prog", "x", "-h"])));
    assert!(!wants_help(&args(&["prog", "-n", "--help"])));
}
