use vstd::prelude::*;

verus! {

/// What the program is asked to do.
#[derive(Debug, Clone, Copy, PartialEq, Eq, Structural)]
pub enum Command {
    /// Print the usage text.
    Help,
    /// Open the settings menu.
    Menu,
    /// Show the saved results.
    Stats,
    /// Run typing tests.
    Test,
}

/// Some argument is `flag`.
pub open spec fn has_arg(args: Seq<String>, flag: Seq<char>) -> bool {
    exists|i: int| 0 <= i < args.len() && #[trigger] args[i]@ == flag
}

/// The command the arguments ask for: help if `-h` or `--help` is among
/// them, else the menu for `-m` or `--menu`, else the stats for `-s` or
/// `--stats`, else a typing test. Other arguments are ignored.
pub open spec fn command_of(args: Seq<String>) -> Command {
    if has_arg(args, "-h"@) || has_arg(args, "--help"@) {
        Command::Help
    } else if has_arg(args, "-m"@) || has_arg(args, "--menu"@) {
        Command::Menu
    } else if has_arg(args, "-s"@) || has_arg(args, "--stats"@) {
        Command::Stats
    } else {
        Command::Test
    }
}

/// Whether some argument is `flag`.
fn contains_arg(args: &Vec<String>, flag: &str) -> (b: bool)
    ensures
        b == has_arg(args@, flag@),
{
    let f = String::from_str(flag);
    let mut i: usize = 0;
    while i < args.len()
        invariant
            f@ == flag@,
            i <= args@.len(),
            forall|j: int| 0 <= j < i ==> #[trigger] args@[j]@ != flag@,
        decreases args@.len() - i,
    {
        if args[i] == f {
            return true;
        }
        i = i + 1;
    }
    false
}

/// The command that the program's arguments ask for.
pub fn parse_command(args: &Vec<String>) -> (c: Command)
    ensures
        c == command_of(args@),
{
    if contains_arg(args, "-h") || contains_arg(args, "--help") {
        Command::Help
    } else if contains_arg(args, "-m") || contains_arg(args, "--menu") {
        Command::Menu
    } else if contains_arg(args, "-s") || contains_arg(args, "--stats") {
        Command::Stats
    } else {
        Command::Test
    }
}

/// The usage text, line by line.
pub fn help_lines() -> (lines: Vec<&'static str>)
    ensures
        lines@.len() == 11,
        lines@[0]@ == "Typing Test CLI"@,
        lines@[1]@ == "A terminal-based typing test application."@,
        lines@[2]@ == "USAGE:"@,
        lines@[3]@ == "    typing_test [OPTIONS]"@,
        lines@[4]@ == "OPTIONS:"@,
        lines@[5]@ == "    -m, --menu              Opens the interactive settings menu."@,
        lines@[6]@ == "    -s, --stats             Shows your saved stats."@,
        lines@[7]@ == "    -h, --help              Prints this help message."@,
        lines@[8]@ == "EXAMPLES:"@,
        lines@[9]@ == "    cargo run --             # Starts the typing test with current settings."@,
        lines@[10]@ == "    cargo run -- -m          # Opens the settings menu."@,
{
    let mut lines: Vec<&'static str> = Vec::new();
    lines.push("Typing Test CLI");
    lines.push("A terminal-based typing test application.");
    lines.push("USAGE:");
    lines.push("    typing_test [OPTIONS]");
    lines.push("OPTIONS:");
    lines.push("    -m, --menu              Opens the interactive settings menu.");
    lines.push("    -s, --stats             Shows your saved stats.");
    lines.push("    -h, --help              Prints this help message.");
    lines.push("EXAMPLES:");
    lines.push("    cargo run --             # Starts the typing test with current settings.");
    lines.push("    cargo run -- -m          # Opens the settings menu.");
    lines
}

} // verus!
