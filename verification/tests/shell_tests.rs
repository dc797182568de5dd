use rush::builtin::{cd_failure, cd_plan, fail, state, void, CdPlan, ChdirError};
use rush::common::{Action, Event};
use rush::config::Config;
use rush::executor::{split_stages, Executee, ExecuteeKind, OpenPlan, RedirectKind};
use rush::shell::{classify, Processed, Shell};

fn test_config() -> Config {
    Config {
        respect_vars: false,
        respect_path: false,
        bin_dirs: vec![String::from("/bin"), String::from("/usr/bin")],
        prompt: String::from("> "),
    }
}

fn test_shell() -> Shell {
    Shell::new(test_config(), Vec::new())
}

#[test]
fn typing_edits_the_line() {
    let mut shell = test_shell();
    assert_eq!(shell.event(&Event::Char('l')), Action::Continue);
    assert_eq!(shell.event(&Event::Char('s')), Action::Continue);
    assert_eq!(shell.line(), "ls");
    assert_eq!(shell.event(&Event::Backspace), Action::Continue);
    assert_eq!(shell.line(), "l");
    assert_eq!(shell.event(&Event::Return), Action::Process);
    assert_eq!(shell.line(), "l");
}

#[test]
fn ctrl_d_exits_only_on_empty_line() {
    let mut shell = test_shell();
    shell.set_line("x");
    assert_eq!(shell.event(&Event::Ctrl('D')), Action::Continue);
    shell.set_line("");
    assert_eq!(shell.event(&Event::Ctrl('D')), Action::Exit);
}

#[test]
fn ctrl_c_clears_and_ctrl_l_redraws() {
    let mut shell = test_shell();
    shell.set_line("half a comm");
    assert_eq!(shell.event(&Event::Ctrl('C')), Action::Continue);
    assert_eq!(shell.line(), "");
    assert_eq!(shell.event(&Event::Ctrl('L')), Action::ClearScreen);
}

#[test]
fn cursor_keys_move_within_the_line() {
    let mut shell = test_shell();
    shell.set_line("ab");
    assert_eq!(shell.position(), 0);
    shell.event(&Event::Left);
    assert_eq!(shell.position(), 1);
    shell.event(&Event::Char('c'));
    assert_eq!(shell.line(), "acb");
    shell.event(&Event::Right);
    assert_eq!(shell.position(), 0);
    shell.event(&Event::Delete);
    assert_eq!(shell.line(), "acb");
}

#[test]
fn history_recall_up_stops_at_oldest() {
    let mut shell = test_shell();
    shell.set_line("one");
    shell.process();
    shell.set_line("two");
    shell.process();
    assert_eq!(shell.line(), "");
    shell.event(&Event::Up);
    assert_eq!(shell.line(), "two");
    shell.event(&Event::Up);
    assert_eq!(shell.line(), "one");
    // Pressing Up at the oldest entry stops advancing.
    shell.event(&Event::Up);
    assert_eq!(shell.line(), "one");
}

#[test]
fn history_recall_down_returns_to_empty() {
    let mut shell = test_shell();
    shell.set_line("one");
    shell.process();
    shell.set_line("two");
    shell.process();
    shell.event(&Event::Up);
    shell.event(&Event::Up);
    assert_eq!(shell.line(), "one");
    shell.event(&Event::Down);
    assert_eq!(shell.line(), "two");
    // Down past the newest entry gives the empty live buffer.
    shell.event(&Event::Down);
    assert_eq!(shell.line(), "");
    shell.event(&Event::Down);
    assert_eq!(shell.line(), "");
}

#[test]
fn assignment_updates_vars_without_spawning() {
    let mut shell = test_shell();
    shell.set_line("FOO=bar");
    let mut run = shell.process();
    assert!(matches!(shell.process_next(&mut run), Processed::Assigned));
    assert!(matches!(shell.process_next(&mut run), Processed::Finished));
    assert_eq!(run.result(), 0);
    assert_eq!(shell.vars().get(&String::from("FOO")), Some(String::from("bar")));
}

#[test]
fn assignment_replaces_prior_value() {
    let mut shell = test_shell();
    shell.set_line("FOO=bar");
    let mut run = shell.process();
    shell.process_next(&mut run);
    shell.set_line("FOO=baz");
    let mut run = shell.process();
    shell.process_next(&mut run);
    assert_eq!(shell.vars().get(&String::from("FOO")), Some(String::from("baz")));
    assert_eq!(shell.vars().len(), 1);
}

#[test]
fn echo_resolves_to_one_binary_stage() {
    let mut shell = test_shell();
    shell.set_line("echo hi");
    let mut run = shell.process();
    let cmd = match shell.process_next(&mut run) {
        Processed::Run(cmd) => cmd,
        _ => panic!("expected a command to run"),
    };
    let atoms = cmd.atoms();
    let stages = split_stages(&atoms);
    assert_eq!(stages.len(), 1);
    assert_eq!(stages[0].args(), &vec![String::from("echo"), String::from("hi")]);
    let resolved = vec![Some(String::from("/bin/echo"))];
    let execs = shell.process_execute(&atoms, &resolved);
    assert_eq!(execs.len(), 1);
    assert!(matches!(&execs[0].kind, ExecuteeKind::Binary(p) if p == "/bin/echo"));
    assert_eq!(execs[0].args, vec![String::from("echo"), String::from("hi")]);
    run.report(0);
    assert!(matches!(shell.process_next(&mut run), Processed::Finished));
    assert_eq!(run.result(), 0);
}

#[test]
fn and_skips_after_failure() {
    let mut shell = test_shell();
    shell.set_line("first && second");
    let mut run = shell.process();
    assert!(matches!(shell.process_next(&mut run), Processed::Run(_)));
    run.report(1);
    // The `&&` command is skipped; the failing code is the result.
    assert!(matches!(shell.process_next(&mut run), Processed::Skipped));
    assert!(matches!(shell.process_next(&mut run), Processed::Finished));
    assert_eq!(run.result(), 1);
}

#[test]
fn or_runs_after_failure() {
    let mut shell = test_shell();
    shell.set_line("first || second");
    let mut run = shell.process();
    assert!(matches!(shell.process_next(&mut run), Processed::Run(_)));
    run.report(1);
    assert!(matches!(shell.process_next(&mut run), Processed::Run(_)));
    run.report(0);
    assert!(matches!(shell.process_next(&mut run), Processed::Finished));
    assert_eq!(run.result(), 0);
}

#[test]
fn and_runs_after_success() {
    let mut shell = test_shell();
    shell.set_line("first && second");
    let mut run = shell.process();
    assert!(matches!(shell.process_next(&mut run), Processed::Run(_)));
    run.report(0);
    assert!(matches!(shell.process_next(&mut run), Processed::Run(_)));
    run.report(7);
    assert!(matches!(shell.process_next(&mut run), Processed::Finished));
    assert_eq!(run.result(), 7);
}

#[test]
fn malformed_line_processes_to_nothing() {
    let mut shell = test_shell();
    shell.set_line("a &&");
    let mut run = shell.process();
    assert!(matches!(shell.process_next(&mut run), Processed::Finished));
    assert_eq!(run.result(), 0);
}

#[test]
fn classification_of_builtins() {
    assert!(matches!(
        classify(&String::from("cd"), &None),
        ExecuteeKind::StrongBuiltin(n) if n == "cd"
    ));
    assert!(matches!(
        classify(&String::from("state"), &None),
        ExecuteeKind::WeakBuiltin(n) if n == "state"
    ));
    assert!(matches!(
        classify(&String::from("self"), &None),
        ExecuteeKind::WeakBuiltin(n) if n == "state"
    ));
    assert!(matches!(
        classify(&String::from("ls"), &Some(String::from("/bin/ls"))),
        ExecuteeKind::Binary(p) if p == "/bin/ls"
    ));
    assert!(matches!(
        classify(&String::from("nope"), &None),
        ExecuteeKind::WeakBuiltin(n) if n == "fail"
    ));
}

#[test]
fn find_bin_first_hit_wins() {
    let shell = test_shell();
    let cmd = String::from("x");
    assert_eq!(shell.find_bin(&cmd, &vec![false, true]), Some(String::from("/usr/bin/x")));
    assert_eq!(shell.find_bin(&cmd, &vec![true, true]), Some(String::from("/bin/x")));
    assert_eq!(shell.find_bin(&cmd, &vec![false, false]), None);
}

#[test]
fn respect_path_extends_bin_dirs() {
    let config = Config {
        respect_vars: true,
        respect_path: true,
        bin_dirs: vec![String::from("/c")],
        prompt: String::from("> "),
    };
    let host = vec![(String::from("PATH"), String::from("/x:/y"))];
    let shell = Shell::new(config, host);
    assert_eq!(
        shell.bin_dirs(),
        &vec![String::from("/c"), String::from("/x"), String::from("/y")]
    );
}

#[test]
fn default_config_values() {
    let config = Config::default();
    assert!(config.respect_vars);
    assert!(config.respect_path);
    assert_eq!(config.bin_dirs, vec![String::from("/bin"), String::from("/usr/bin")]);
    assert_eq!(config.prompt, "\u{bb} ");
}

#[test]
fn cd_argument_validation() {
    assert!(matches!(
        cd_plan(&vec![String::from("cd")]),
        CdPlan::Error(m) if m == "cd: Not enough arguments."
    ));
    assert!(matches!(
        cd_plan(&vec![String::from("cd"), String::from("/tmp")]),
        CdPlan::Chdir(p) if p == "/tmp"
    ));
    assert!(matches!(
        cd_plan(&vec![String::from("cd"), String::from("a"), String::from("b")]),
        CdPlan::Error(m) if m == "cd: Too many arguments."
    ));
}

#[test]
fn cd_failure_names_the_path() {
    let (msg, code) = cd_failure(ChdirError::NotFound, &String::from("/nonexistent"));
    assert_eq!(code, 1);
    assert_eq!(msg, "cd: The directory \"/nonexistent\" does not exist.");
    assert!(msg.contains("/nonexistent"));
    let (msg, code) = cd_failure(ChdirError::PermissionDenied, &String::from("/root/x"));
    assert_eq!(code, 1);
    assert_eq!(msg, "cd: Search permission denied.");
    let (msg, _) = cd_failure(ChdirError::NotADirectory, &String::from("/etc/passwd"));
    assert_eq!(msg, "cd: \"/etc/passwd\" is not a directory.");
}

#[test]
fn cd_failure_covers_every_error_class() {
    let p = String::from("/p");
    assert_eq!(cd_failure(ChdirError::BadAddress, &p).0, "cd: Path \"/p\" points outside accessible address space.");
    assert_eq!(cd_failure(ChdirError::Io, &p).0, "cd: And I/O error occurred.");
    assert_eq!(cd_failure(ChdirError::SymlinkLoop, &p).0, "cd: Too many symbolic links encountered.");
    assert_eq!(cd_failure(ChdirError::NameTooLong, &p).0, "cd: Path is too long.");
    assert_eq!(cd_failure(ChdirError::OutOfMemory, &p).0, "cd: Insufficient kernel memory.");
    assert_eq!(cd_failure(ChdirError::Unknown, &p).0, "cd: Unknown error.");
    assert_eq!(cd_failure(ChdirError::Unknown, &p).1, 1);
}

#[test]
fn fail_builtin_reports_unknown_command() {
    let (msg, code) = fail(&vec![String::from("nope")]);
    assert_eq!(msg, "rush: Unknown command nope.");
    assert_eq!(code, 1);
}

#[test]
fn void_builtin_succeeds() {
    assert_eq!(void(), 0);
}

#[test]
fn state_renders_selected_sections() {
    let vars = vec![(String::from("A"), String::from("1")), (String::from("B"), String::from("2"))];
    let dirs = vec![String::from("/bin")];
    let config = test_config();
    let (out, err) = state(&vec![String::from("state"), String::from("vars")], &vars, &dirs, &config);
    assert_eq!(out, "A=1\nB=2\n");
    assert_eq!(err, "");
    let (out, _) = state(&vec![String::from("state"), String::from("bin")], &vars, &dirs, &config);
    assert_eq!(out, "/bin\n");
    let (out, _) = state(&vec![String::from("state"), String::from("config")], &vars, &dirs, &config);
    assert_eq!(
        out,
        "respect_vars=false\nrespect_path=false\nbin_dirs=/bin:/usr/bin\nprompt=> \n"
    );
    let (out, err) = state(&vec![String::from("state"), String::from("wat")], &vars, &dirs, &config);
    assert_eq!(out, "");
    assert_eq!(err, "state: Unknown option. ");
}

#[test]
fn state_without_selection_renders_everything() {
    let vars = vec![(String::from("A"), String::from("1"))];
    let dirs = vec![String::from("/bin")];
    let config = test_config();
    let (out, err) = state(&vec![String::from("state")], &vars, &dirs, &config);
    assert_eq!(
        out,
        "VARS\nA=1\n\nBIN_DIRS\n/bin\n\nCONFIG\nrespect_vars=false\nrespect_path=false\nbin_dirs=/bin:/usr/bin\nprompt=> \n"
    );
    assert_eq!(err, "");
}

#[test]
fn executee_env_strings() {
    let mut e = Executee::new();
    e.set_vars(vec![(String::from("A"), String::from("1")), (String::from("B"), String::from("2"))]);
    assert_eq!(e.env_strings(), vec![String::from("A=1"), String::from("B=2")]);
}

#[test]
fn open_plans_match_redirect_forms() {
    let w = RedirectKind::Write(String::from("f")).open_plan().unwrap();
    assert!(w.write && w.create && w.truncate && !w.append && !w.read);
    let a = RedirectKind::Append(String::from("f")).open_plan().unwrap();
    assert!(a.write && a.create && a.append && !a.truncate);
    let r = RedirectKind::Read(String::from("f")).open_plan().unwrap();
    assert!(r.read && !r.write && !r.create);
    let rw = RedirectKind::RW(String::from("f")).open_plan().unwrap();
    assert!(rw.read && rw.write && rw.create && rw.truncate);
    assert!(RedirectKind::Dup(1).open_plan().is_none());
    assert!(RedirectKind::Mov(1).open_plan().is_none());
    let _ = OpenPlan { read: false, write: false, create: false, truncate: false, append: false };
}

#[test]
fn pipeline_splits_into_stages_with_redirects() {
    let seq = rush::parser::bash::parse(String::from("a x | b 2>err")).get();
    let atoms = seq[0].1.atoms();
    let stages = split_stages(&atoms);
    assert_eq!(stages.len(), 2);
    assert_eq!(stages[0].args, vec![String::from("a"), String::from("x")]);
    assert_eq!(stages[1].args, vec![String::from("b")]);
    assert_eq!(stages[0].redirect.len(), 0);
    assert_eq!(stages[1].redirect.len(), 1);
    assert!(matches!(&stages[1].redirect[0], (RedirectKind::Write(f), 2) if f == "err"));
}

#[test]
fn stage_snapshot_carries_current_vars() {
    let mut shell = test_shell();
    shell.set_line("FOO=bar");
    let mut run = shell.process();
    shell.process_next(&mut run);
    shell.set_line("echo hi");
    let mut run = shell.process();
    let cmd = match shell.process_next(&mut run) {
        Processed::Run(cmd) => cmd,
        _ => panic!("expected a command"),
    };
    let atoms = cmd.atoms();
    let execs = shell.process_execute(&atoms, &vec![None]);
    assert_eq!(execs[0].vars, vec![(String::from("FOO"), String::from("bar"))]);
    assert!(matches!(&execs[0].kind, ExecuteeKind::WeakBuiltin(n) if n == "fail"));
}
