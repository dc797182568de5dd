use rush::parser::bash::parse;
use rush::parser::{AtomKind, CommandKind, SequenceKind};

fn words_of(cmd: &rush::parser::Command) -> Vec<String> {
    let mut out = Vec::new();
    for atom in cmd.atoms() {
        if let AtomKind::Word(w) = atom.kind() {
            out.push(w);
        }
    }
    out
}

#[test]
fn single_command_words() {
    let seq = parse(String::from("echo hi")).get();
    assert_eq!(seq.len(), 1);
    assert_eq!(seq[0].0, SequenceKind::Always);
    assert_eq!(seq[0].1.kind(), CommandKind::Execute);
    assert_eq!(words_of(&seq[0].1), vec!["echo".to_string(), "hi".to_string()]);
    assert_eq!(seq[0].1.atoms().len(), 2);
}

#[test]
fn word_spans() {
    let seq = parse(String::from("echo hi")).get();
    let atoms = seq[0].1.atoms();
    assert_eq!((atoms[0].start, atoms[0].end), (0, 4));
    assert_eq!((atoms[1].start, atoms[1].end), (5, 7));
}

#[test]
fn empty_line_parses_to_nothing() {
    assert_eq!(parse(String::new()).get().len(), 0);
    assert_eq!(parse(String::from("   \t ")).get().len(), 0);
}

#[test]
fn separators_attach_to_following_command() {
    let seq = parse(String::from("a && b || c; d")).get();
    assert_eq!(seq.len(), 4);
    assert_eq!(seq[0].0, SequenceKind::Always);
    assert_eq!(seq[1].0, SequenceKind::And);
    assert_eq!(seq[2].0, SequenceKind::Or);
    assert_eq!(seq[3].0, SequenceKind::Always);
    assert_eq!(words_of(&seq[0].1), vec!["a".to_string()]);
    assert_eq!(words_of(&seq[3].1), vec!["d".to_string()]);
}

#[test]
fn pipeline_atoms() {
    let seq = parse(String::from("a | b")).get();
    assert_eq!(seq.len(), 1);
    let atoms = seq[0].1.atoms();
    assert_eq!(atoms.len(), 3);
    assert!(matches!(atoms[0].kind(), AtomKind::Word(w) if w == "a"));
    assert!(matches!(atoms[1].kind(), AtomKind::Pipe));
    assert!(matches!(atoms[2].kind(), AtomKind::Word(w) if w == "b"));
}

#[test]
fn redirect_write_defaults_to_stdout() {
    let seq = parse(String::from("echo hi > out.txt")).get();
    let atoms = seq[0].1.atoms();
    assert_eq!(atoms.len(), 3);
    assert!(matches!(atoms[2].kind(), AtomKind::FileWrite(f, 1) if f == "out.txt"));
}

#[test]
fn redirect_with_fd_prefix() {
    let seq = parse(String::from("cmd 2>err")).get();
    let atoms = seq[0].1.atoms();
    assert!(matches!(atoms[1].kind(), AtomKind::FileWrite(f, 2) if f == "err"));
}

#[test]
fn redirect_append() {
    let seq = parse(String::from("cmd 2>>err")).get();
    let atoms = seq[0].1.atoms();
    assert!(matches!(atoms[1].kind(), AtomKind::FileAppend(f, 2) if f == "err"));
}

#[test]
fn redirect_read_defaults_to_stdin() {
    let seq = parse(String::from("cmd <in")).get();
    let atoms = seq[0].1.atoms();
    assert!(matches!(atoms[1].kind(), AtomKind::FileRead(f, 0) if f == "in"));
    let seq = parse(String::from("cmd 3<in")).get();
    let atoms = seq[0].1.atoms();
    assert!(matches!(atoms[1].kind(), AtomKind::FileRead(f, 3) if f == "in"));
}

#[test]
fn redirect_read_write() {
    let seq = parse(String::from("cmd <>scratch")).get();
    let atoms = seq[0].1.atoms();
    assert!(matches!(atoms[1].kind(), AtomKind::FileReadWrite(f, 0) if f == "scratch"));
}

#[test]
fn redirect_duplicate() {
    // `2>&1` duplicates descriptor 1 onto descriptor 2.
    let seq = parse(String::from("cmd 2>&1")).get();
    let atoms = seq[0].1.atoms();
    assert!(matches!(atoms[1].kind(), AtomKind::FdDuplicate(1, 2)));
    // Without a prefix the output form defaults to descriptor 1.
    let seq = parse(String::from("cmd >&2")).get();
    let atoms = seq[0].1.atoms();
    assert!(matches!(atoms[1].kind(), AtomKind::FdDuplicate(2, 1)));
    // The input form defaults to descriptor 0.
    let seq = parse(String::from("cmd <&4")).get();
    let atoms = seq[0].1.atoms();
    assert!(matches!(atoms[1].kind(), AtomKind::FdDuplicate(4, 0)));
}

#[test]
fn redirect_move() {
    let seq = parse(String::from("cmd 2>&1-")).get();
    let atoms = seq[0].1.atoms();
    assert!(matches!(atoms[1].kind(), AtomKind::FdMove(1, 2)));
}

#[test]
fn assignment_splits_at_first_equals() {
    let seq = parse(String::from("FOO=bar")).get();
    assert_eq!(seq.len(), 1);
    assert_eq!(seq[0].1.kind(), CommandKind::Assign);
    assert_eq!(words_of(&seq[0].1), vec!["FOO".to_string(), "bar".to_string()]);

    let seq = parse(String::from("a=b=c")).get();
    assert_eq!(seq[0].1.kind(), CommandKind::Assign);
    assert_eq!(words_of(&seq[0].1), vec!["a".to_string(), "b=c".to_string()]);
}

#[test]
fn assignment_needs_name_and_value() {
    // An empty value leaves the word an ordinary execute command.
    let seq = parse(String::from("FOO=")).get();
    assert_eq!(seq[0].1.kind(), CommandKind::Execute);
    let seq = parse(String::from("=bar")).get();
    assert_eq!(seq[0].1.kind(), CommandKind::Execute);
}

#[test]
fn equals_inside_larger_command_is_a_word() {
    let seq = parse(String::from("env FOO=bar")).get();
    assert_eq!(seq[0].1.kind(), CommandKind::Execute);
    assert_eq!(words_of(&seq[0].1), vec!["env".to_string(), "FOO=bar".to_string()]);
}

#[test]
fn mismatches_parse_to_nothing() {
    assert_eq!(parse(String::from("a |")).get().len(), 0);
    assert_eq!(parse(String::from("| a")).get().len(), 0);
    assert_eq!(parse(String::from("a | | b")).get().len(), 0);
    assert_eq!(parse(String::from("a ;")).get().len(), 0);
    assert_eq!(parse(String::from("; a")).get().len(), 0);
    assert_eq!(parse(String::from("a & b")).get().len(), 0);
    assert_eq!(parse(String::from("&")).get().len(), 0);
    assert_eq!(parse(String::from("cmd >")).get().len(), 0);
    assert_eq!(parse(String::from("cmd >&file")).get().len(), 0);
    assert_eq!(parse(String::from("a && ")).get().len(), 0);
}

#[test]
fn oversized_descriptor_is_a_mismatch() {
    assert_eq!(parse(String::from("cmd 99999999999>&1")).get().len(), 0);
    assert_eq!(parse(String::from("cmd 2>&99999999999")).get().len(), 0);
}
