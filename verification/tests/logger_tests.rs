use transaction_parser::command_handler::Severity;
use transaction_parser::logger::log_line;

#[test]
fn warning_line_has_its_prefix() {
    assert_eq!(log_line(Severity::Warning, "something odd"), "\nWarning!  something odd\n");
    assert_eq!(log_line(Severity::Warning, ""), "\nWarning!  \n");
}

#[test]
fn error_line_has_its_prefix() {
    assert_eq!(log_line(Severity::Error, "something wrong"), "\nERROR!  something wrong\n");
    assert_eq!(log_line(Severity::Error, "a\nb"), "\nERROR!  a\nb\n");
}
