use notes::default_patterns;
use notes::parse_ignore_file;
use notes::select_patterns;

#[test]
fn ignore_file_lines_are_trimmed_and_comments_skipped() {
    let text = "  foo \n# a comment\n\nbar\n";
    assert_eq!(parse_ignore_file(text), vec!["foo", "bar"]);
}

#[test]
fn ignore_file_handles_carriage_returns_and_tabs() {
    let text = "a/\r\n\tb.log\t\r\n#c\r\n";
    assert_eq!(parse_ignore_file(text), vec!["a/", "b.log"]);
}

#[test]
fn empty_ignore_file_yields_no_patterns() {
    assert_eq!(parse_ignore_file(""), Vec::<String>::new());
    assert_eq!(parse_ignore_file("\n\n  \n# only a comment\n"), Vec::<String>::new());
}

#[test]
fn default_list_holds_the_four_built_ins() {
    assert_eq!(default_patterns(), vec![".git/", "tmp/", "log/", "*.log"]);
}

#[test]
fn command_line_patterns_win() {
    let cli = Some(vec!["a/".to_string(), "b/".to_string()]);
    let picked = select_patterns(cli, Some("c/\n"));
    assert_eq!(picked, vec!["a/", "b/"]);
}

#[test]
fn ignore_file_is_used_when_no_cli_patterns() {
    let picked = select_patterns(None, Some("c/\nd.log\n"));
    assert_eq!(picked, vec!["c/", "d.log"]);
}

#[test]
fn built_in_defaults_are_the_last_resort() {
    let picked = select_patterns(None, None);
    assert_eq!(picked, vec![".git/", "tmp/", "log/", "*.log"]);
}
