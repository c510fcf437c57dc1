use styleparse::cli::{process_command, Command};
use styleparse::md::heading;
use styleparse::num::Scalar;

#[test]
fn only_b_selects_a_command() {
    assert_eq!(process_command('b'), Ok(Command::BuildAll));
    assert_eq!(process_command('a'), Err("Invalid command".to_string()));
    assert_eq!(process_command('z'), Err("Invalid command".to_string()));
    assert_eq!(process_command('!'), Err("Invalid command".to_string()));
    assert_eq!(process_command('B'), Err("Invalid command".to_string()));
}

#[test]
fn headings_become_tags() {
    assert_eq!(heading("# Title"), Some("<h1>Title</h1>".to_string()));
    assert_eq!(heading("### deep"), Some("<h3>deep</h3>".to_string()));
    assert_eq!(heading("plain text"), None);
    assert_eq!(heading(""), None);
}

#[test]
fn scalar_bound_check() {
    assert!(Scalar { whole: 99, frac: "9".to_string() }.at_most(100));
    assert!(Scalar { whole: 100, frac: "00".to_string() }.at_most(100));
    assert!(!Scalar { whole: 100, frac: "01".to_string() }.at_most(100));
    assert!(!Scalar { whole: 101, frac: String::new() }.at_most(100));
}
