use rush::input::Input;
use rush::line::Parser;
use rush::processor::Processor;

#[test]
fn input_set_round_trip() {
    let mut input = Input::new();
    input.set("hello world");
    assert_eq!(input.raw(), "hello world");
    // The cursor sits at the end: zero characters after it.
    assert_eq!(input.position(), 0);
}

#[test]
fn input_cursor_moves_and_edits() {
    let mut input = Input::new();
    input.push('a');
    input.push('b');
    assert_eq!(input.position(), 0);
    assert!(input.left());
    assert_eq!(input.position(), 1);
    input.push('c');
    assert_eq!(input.raw(), "acb");
    assert_eq!(input.position(), 1);
    assert_eq!(input.pop_prev(), Some('c'));
    assert_eq!(input.raw(), "ab");
    assert_eq!(input.pop_next(), Some('b'));
    assert_eq!(input.raw(), "a");
    assert_eq!(input.pop_next(), None);
    assert!(input.right() == false);
    assert!(input.left());
    assert!(input.left() == false);
    assert_eq!(input.raw(), "a");
    assert_eq!(input.position(), 1);
}

#[test]
fn input_clear_and_is_empty() {
    let mut input = Input::new();
    assert!(input.is_empty());
    input.push('x');
    assert!(!input.is_empty());
    input.clear();
    assert!(input.is_empty());
    assert_eq!(input.raw(), "");
}

#[test]
fn input_caches_the_parse() {
    let mut input = Input::new();
    input.set("echo hi");
    assert_eq!(input.get().get().len(), 1);
    input.set("a |");
    assert_eq!(input.get().get().len(), 0);
}

#[test]
fn processor_mirrors_the_buffer() {
    let mut p = Processor::new();
    p.set(String::from("ab"));
    assert_eq!(p.raw(), "ab");
    assert_eq!(p.position(), 0);
    assert!(p.left());
    assert_eq!(p.position(), 1);
    assert_eq!(p.pop_prev(), Some('a'));
    assert_eq!(p.raw(), "b");
    p.parse();
    assert_eq!(p.get().get().len(), 1);
    p.clear();
    assert!(p.is_empty());
}

#[test]
fn parser_splits_whitespace_words() {
    let mut p = Parser::new();
    p.set(String::from("ls  -l\tfoo"));
    assert_eq!(p.args(), vec!["ls".to_string(), "-l".to_string(), "foo".to_string()]);
    assert_eq!(p.command(), Some("ls".to_string()));
    assert_eq!(p.raw(), "ls  -l\tfoo");
}

#[test]
fn parser_deletions_keep_cached_words() {
    let mut p = Parser::new();
    p.set(String::from("ls -l"));
    assert_eq!(p.pop_prev(), Some('l'));
    // The cached split is refreshed only by push/set/clear.
    assert_eq!(p.args(), vec!["ls".to_string(), "-l".to_string()]);
    p.push('a');
    assert_eq!(p.args(), vec!["ls".to_string(), "-a".to_string()]);
}

#[test]
fn parser_empty_command() {
    let mut p = Parser::new();
    assert_eq!(p.command(), None);
    assert!(p.is_empty());
    p.set(String::from("   "));
    assert_eq!(p.command(), None);
    assert_eq!(p.args(), Vec::<String>::new());
}
