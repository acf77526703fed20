use timer_repl::command::{execute, handle_line, parse, split_words, trim, Action, Command};
use timer_repl::report::Report;
use timer_repl::store::is_wildcard_word;
use timer_repl::store::TimerStore;

fn strings(ws: &[&str]) -> Vec<String> {
    ws.iter().map(|w| w.to_string()).collect()
}

#[test]
fn parses_long_and_short_names() {
    assert_eq!(parse("help"), Command::Help);
    assert_eq!(parse("h"), Command::Help);
    assert_eq!(parse("exit"), Command::Exit);
    assert_eq!(parse("e"), Command::Exit);
    assert_eq!(parse("clear"), Command::Clear);
    assert_eq!(parse("c"), Command::Clear);
    assert_eq!(parse("show a b"), Command::Show(strings(&["a", "b"])));
    assert_eq!(parse("sh"), Command::Show(Vec::new()));
    assert_eq!(parse("stop *"), Command::Stop(strings(&["*"])));
    assert_eq!(parse("st x"), Command::Stop(strings(&["x"])));
    assert_eq!(parse("new a"), Command::New(strings(&["a"])));
    assert_eq!(parse("n"), Command::New(Vec::new()));
}

#[test]
fn extra_words_after_a_bare_command_are_ignored() {
    assert_eq!(parse("help me"), Command::Help);
    assert_eq!(parse("e now"), Command::Exit);
}

#[test]
fn trims_the_line() {
    assert_eq!(trim("\t new a \r\n"), "new a");
    assert_eq!(trim("   "), "");
    assert_eq!(parse("  new a b\n"), Command::New(strings(&["a", "b"])));
}

#[test]
fn splits_at_single_spaces() {
    assert_eq!(split_words("new a  b"), strings(&["new", "a", "", "b"]));
    assert_eq!(split_words(""), strings(&[""]));
    assert_eq!(split_words("x "), strings(&["x", ""]));
}

#[test]
fn empty_and_unknown_lines() {
    assert_eq!(parse(""), Command::Empty);
    assert_eq!(parse(" \n"), Command::Empty);
    assert_eq!(parse("foo"), Command::Unknown("foo".to_string()));
    assert_eq!(parse("foo bar"), Command::Unknown("foo".to_string()));
}

#[test]
fn wildcard_word() {
    assert!(is_wildcard_word(&"*".to_string()));
    assert!(!is_wildcard_word(&"**".to_string()));
    assert!(!is_wildcard_word(&"a".to_string()));
}

#[test]
fn session_of_lines() {
    let mut store = TimerStore::new();
    let step = handle_line(&mut store, "new a b c\n", 0);
    assert!(step.reports.is_empty());
    assert_eq!(step.action, Action::Continue);
    let step = handle_line(&mut store, "show *", 1_000_000_000);
    assert_eq!(step.reports.len(), 3);
    let step = handle_line(&mut store, "st b", 2_000_000_000);
    assert_eq!(step.reports[0].text(), "(STOPPED) b: 00:00:02.000");
    let step = handle_line(&mut store, "n", 3_000_000_000);
    assert_eq!(step.reports, vec![Report::NoNameGiven]);
    assert_eq!(store.len(), 3);
    let step = handle_line(&mut store, "bogus", 0);
    assert_eq!(step.reports[0].text(), "Unknown command: bogus");
    assert_eq!(handle_line(&mut store, "", 0).action, Action::Continue);
    assert!(handle_line(&mut store, "", 0).reports.is_empty());
    assert_eq!(handle_line(&mut store, "h", 0).action, Action::ShowHelp);
    assert_eq!(handle_line(&mut store, "clear", 0).action, Action::ClearScreen);
    assert_eq!(handle_line(&mut store, "exit", 0).action, Action::Exit);
}

#[test]
fn execute_a_parsed_command() {
    let mut store = TimerStore::new();
    let step = execute(&mut store, &Command::New(strings(&["a"])), 5);
    assert!(step.reports.is_empty());
    let step = execute(&mut store, &Command::Stop(strings(&["a"])), 5);
    assert_eq!(
        step.reports,
        vec![Report::Status { name: "a".to_string(), running: false, elapsed: 0 }]
    );
}
