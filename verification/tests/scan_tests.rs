use notes::Logger;
use notes::is_binary_buffer;
use notes::is_executable;
use notes::truncate;

#[test]
fn truncate_keeps_short_text() {
    assert_eq!(truncate("hello", 10), "hello");
    assert_eq!(truncate("hello", 5), "hello");
    assert_eq!(truncate("", 0), "");
}

#[test]
fn truncate_cuts_long_text_and_marks_it() {
    assert_eq!(truncate("hello world", 5), "hello...");
    assert_eq!(truncate("abcdef", 1), "a...");
    assert_eq!(truncate("abcdef", 0), "...");
}

#[test]
fn binary_buffer_is_spotted_by_control_bytes() {
    assert!(!is_binary_buffer(&[]));
    assert!(!is_binary_buffer(b"plain text, nothing else"));
    assert!(!is_binary_buffer(&[9, 10, 13, 65]));
    assert!(is_binary_buffer(&[0]));
    assert!(is_binary_buffer(&[65, 66, 1, 67]));
    assert!(is_binary_buffer(&[127]));
    assert!(!is_binary_buffer(&[128, 200, 255]));
}

#[test]
fn executable_modes_have_an_execute_bit() {
    assert!(is_executable(0o755));
    assert!(is_executable(0o100));
    assert!(is_executable(0o001));
    assert!(!is_executable(0o644));
    assert!(!is_executable(0));
}

#[test]
fn logger_is_enabled_unless_quiet() {
    assert!(Logger { quiet: false }.enabled());
    assert!(!Logger { quiet: true }.enabled());
}
