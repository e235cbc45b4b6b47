use nidrs_cli::shared::{command_result, console_lines, tag_line, Clearance};
use nidrs_cli::text::split_line;

#[test]
fn a_line_without_the_separator_is_one_piece() {
    assert_eq!(split_line("Cloning into 'demo'...", '\r'), vec!["Cloning into 'demo'..."]);
}

#[test]
fn the_empty_line_is_one_empty_piece() {
    assert_eq!(split_line("", '\r'), vec![""]);
}

#[test]
fn a_line_is_cut_at_each_separator() {
    assert_eq!(split_line("10%\r50%\r100%", '\r'), vec!["10%", "50%", "100%"]);
    assert_eq!(split_line("a,b", ','), vec!["a", "b"]);
}

#[test]
fn separators_at_the_ends_and_in_a_row_leave_empty_pieces() {
    assert_eq!(split_line("\ra\r\rb\r", '\r'), vec!["", "a", "", "b", ""]);
    assert_eq!(split_line("\r", '\r'), vec!["", ""]);
}

#[test]
fn pieces_joined_by_the_separator_are_the_line() {
    let line = "ré\rsumé\r\r日本";
    let parts = split_line(line, '\r');
    assert_eq!(parts.len(), 4);
    assert_eq!(parts.join("\r"), line);
    assert!(parts.iter().all(|p| !p.contains('\r')));
}

#[test]
fn a_tagged_line_has_the_prefix_in_brackets() {
    assert_eq!(tag_line("git", "done"), "[git] done");
    assert_eq!(tag_line("Build(0)", ""), "[Build(0)] ");
    assert_eq!(tag_line("", "x"), "[] x");
}

#[test]
fn console_lines_tag_each_piece() {
    assert_eq!(
        console_lines("git", "Receiving objects:  50%\rReceiving objects: 100%"),
        vec!["[git] Receiving objects:  50%", "[git] Receiving objects: 100%"]
    );
    assert_eq!(console_lines("npm", ""), vec!["[npm] "]);
}

#[test]
fn a_command_that_succeeded_gives_ok() {
    assert!(command_result(true).is_ok());
}

#[test]
fn a_command_that_failed_gives_the_error() {
    assert_eq!(command_result(false).unwrap_err().to_string(), "command failed");
}

#[test]
fn clearances_differ() {
    assert_ne!(Clearance::Proceed, Clearance::RemoveFirst);
    assert_ne!(Clearance::RemoveFirst, Clearance::Refuse);
}
