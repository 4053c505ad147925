use typing_test::cli::{help_lines, parse_command, Command};

fn args(a: &[&str]) -> Vec<String> {
    a.iter().map(|s| s.to_string()).collect()
}

#[test]
fn help_comes_before_menu_and_stats() {
    assert_eq!(parse_command(&args(&["prog", "-s", "-m", "--help"])), Command::Help);
    assert_eq!(parse_command(&args(&["prog", "-h"])), Command::Help);
}

#[test]
fn menu_comes_before_stats() {
    assert_eq!(parse_command(&args(&["prog", "--stats", "--menu"])), Command::Menu);
    assert_eq!(parse_command(&args(&["prog", "-m"])), Command::Menu);
}

#[test]
fn stats_and_default_test() {
    assert_eq!(parse_command(&args(&["prog", "-s"])), Command::Stats);
    assert_eq!(parse_command(&args(&["prog", "--stats"])), Command::Stats);
    assert_eq!(parse_command(&args(&["prog"])), Command::Test);
    assert_eq!(parse_command(&args(&["prog", "-x", "menu"])), Command::Test);
}

#[test]
fn usage_text() {
    let lines = help_lines();
    assert_eq!(lines.len(), 11);
    assert_eq!(lines[0], "Typing Test CLI");
    assert_eq!(lines[5], "    -m, --menu              Opens the interactive settings menu.");
}
