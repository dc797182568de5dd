//! The shell's builtin commands, as pure functions: they validate
//! arguments and produce the exact text to print and the exit code to
//! report. The host program performs the directory change and the printing
//! and feeds any OS error class back in.

use vstd::prelude::*;

use crate::config::Config;

verus! {

/// The do-nothing weak builtin: runs a stage that has no command word.
pub fn void() -> (res: u8)
    ensures
        res == 0,
{
    0
}

/// The diagnostic of the unknown-command builtin.
pub open spec fn fail_message(cmd: Seq<char>) -> Seq<char> {
    "rush: Unknown command "@ + cmd + "."@
}

/// The weak builtin run for an unresolvable command word: a diagnostic for
/// standard error, and exit code 1.
pub fn fail(args: &Vec<String>) -> (res: (String, u8))
    requires
        args@.len() > 0,
    ensures
        res.0@ == fail_message(args.deep_view()[0]),
        res.1 == 1,
{
    let mut msg = String::from_str("rush: Unknown command ");
    msg.append(args[0].as_str());
    msg.append(".");
    (msg, 1)
}

/// What the `cd` builtin decides from its arguments alone.
pub enum CdPlan {
    /// Wrong number of arguments: print this diagnostic, exit code 1.
    Error(String),
    /// Change the working directory to this path.
    Chdir(String),
}

/// Argument validation of `cd`: the command word plus exactly one path
/// changes directory; fewer or more arguments are errors.
pub fn cd_plan(args: &Vec<String>) -> (res: CdPlan)
    ensures
        args@.len() <= 1 ==> (res matches CdPlan::Error(m) && m@
            == "cd: Not enough arguments."@),
        args@.len() == 2 ==> (res matches CdPlan::Chdir(p) && p@ == args.deep_view()[1]),
        args@.len() >= 3 ==> (res matches CdPlan::Error(m) && m@ == "cd: Too many arguments."@),
{
    if args.len() <= 1 {
        CdPlan::Error(String::from_str("cd: Not enough arguments."))
    } else if args.len() == 2 {
        CdPlan::Chdir(args[1].clone())
    } else {
        CdPlan::Error(String::from_str("cd: Too many arguments."))
    }
}

/// The OS error classes a directory change distinguishes.
#[derive(Clone, Copy, PartialEq, Eq, Structural, Debug)]
pub enum ChdirError {
    /// Search permission denied on a path component.
    PermissionDenied,
    /// The path points outside the accessible address space.
    BadAddress,
    /// An I/O error occurred.
    Io,
    /// Too many symbolic links were followed.
    SymlinkLoop,
    /// The path is too long.
    NameTooLong,
    /// A path component does not exist.
    NotFound,
    /// The kernel is out of memory.
    OutOfMemory,
    /// A path component is not a directory.
    NotADirectory,
    /// Any other error.
    Unknown,
}

/// The diagnostic `cd` prints for each error class; the classes that speak
/// of a concrete path name it.
pub open spec fn cd_failure_message(err: ChdirError, path: Seq<char>) -> Seq<char> {
    match err {
        ChdirError::PermissionDenied => "cd: Search permission denied."@,
        ChdirError::BadAddress => "cd: Path \""@ + path
            + "\" points outside accessible address space."@,
        ChdirError::Io => "cd: And I/O error occurred."@,
        ChdirError::SymlinkLoop => "cd: Too many symbolic links encountered."@,
        ChdirError::NameTooLong => "cd: Path is too long."@,
        ChdirError::NotFound => "cd: The directory \""@ + path + "\" does not exist."@,
        ChdirError::OutOfMemory => "cd: Insufficient kernel memory."@,
        ChdirError::NotADirectory => "cd: \""@ + path + "\" is not a directory."@,
        ChdirError::Unknown => "cd: Unknown error."@,
    }
}

/// The diagnostic for a failed directory change; the command's exit code
/// is 1 in every failure class.
pub fn cd_failure(err: ChdirError, path: &String) -> (res: (String, u8))
    ensures
        res.0@ == cd_failure_message(err, path@),
        res.1 == 1,
{
    let msg = match err {
        ChdirError::PermissionDenied => String::from_str("cd: Search permission denied."),
        ChdirError::BadAddress => {
            let mut m = String::from_str("cd: Path \"");
            m.append(path.as_str());
            m.append("\" points outside accessible address space.");
            m
        },
        ChdirError::Io => String::from_str("cd: And I/O error occurred."),
        ChdirError::SymlinkLoop => String::from_str("cd: Too many symbolic links encountered."),
        ChdirError::NameTooLong => String::from_str("cd: Path is too long."),
        ChdirError::NotFound => {
            let mut m = String::from_str("cd: The directory \"");
            m.append(path.as_str());
            m.append("\" does not exist.");
            m
        },
        ChdirError::OutOfMemory => String::from_str("cd: Insufficient kernel memory."),
        ChdirError::NotADirectory => {
            let mut m = String::from_str("cd: \"");
            m.append(path.as_str());
            m.append("\" is not a directory.");
            m
        },
        ChdirError::Unknown => String::from_str("cd: Unknown error."),
    };
    (msg, 1)
}

// ---------------------------------------------------------------------------
// The `state` builtin: renders the shell's introspection data.
// ---------------------------------------------------------------------------
/// `key=value` lines, one per variable, in order.
pub open spec fn kv_lines(vars: Seq<(Seq<char>, Seq<char>)>) -> Seq<char>
    decreases vars.len(),
{
    if vars.len() == 0 {
        Seq::empty()
    } else {
        kv_lines(vars.drop_last()) + vars.last().0 + "="@ + vars.last().1 + "\n"@
    }
}

/// One line per entry, in order.
pub open spec fn entry_lines(dirs: Seq<Seq<char>>) -> Seq<char>
    decreases dirs.len(),
{
    if dirs.len() == 0 {
        Seq::empty()
    } else {
        entry_lines(dirs.drop_last()) + dirs.last() + "\n"@
    }
}

pub open spec fn bool_text(b: bool) -> Seq<char> {
    if b {
        "true"@
    } else {
        "false"@
    }
}

/// The entries joined by `:`, the separator of search-path syntax.
pub open spec fn colon_joined(dirs: Seq<Seq<char>>) -> Seq<char>
    decreases dirs.len(),
{
    if dirs.len() == 0 {
        Seq::empty()
    } else if dirs.len() == 1 {
        dirs[0]
    } else {
        colon_joined(dirs.drop_last()) + ":"@ + dirs.last()
    }
}

/// The configuration rendered as `key=value` lines.
pub open spec fn config_text(c: &Config) -> Seq<char> {
    "respect_vars="@ + bool_text(c.respect_vars) + "\n"@ + "respect_path="@ + bool_text(
        c.respect_path,
    ) + "\n"@ + "bin_dirs="@ + colon_joined(c.bin_dirs.deep_view()) + "\n"@ + "prompt="@
        + c.prompt@ + "\n"@
}

fn render_kv_lines(vars: &Vec<(String, String)>) -> (res: String)
    ensures
        res@ == kv_lines(crate::executor::vars_seq_view(vars@)),
{
    let ghost vv = crate::executor::vars_seq_view(vars@);
    let mut res = String::new();
    let mut i: usize = 0;
    while i < vars.len()
        invariant
            i <= vars@.len(),
            vv == crate::executor::vars_seq_view(vars@),
            res@ == kv_lines(vv.subrange(0, i as int)),
        decreases vars@.len() - i,
    {
        res.append(vars[i].0.as_str());
        res.append("=");
        res.append(vars[i].1.as_str());
        res.append("\n");
        proof {
            assert(vv.subrange(0, i + 1).drop_last() =~= vv.subrange(0, i as int));
            assert(vv.subrange(0, i + 1).last() == vv[i as int]);
        }
        i = i + 1;
    }
    proof {
        assert(vv.subrange(0, vv.len() as int) =~= vv);
    }
    res
}

fn render_entry_lines(dirs: &Vec<String>) -> (res: String)
    ensures
        res@ == entry_lines(dirs.deep_view()),
{
    let ghost dv = dirs.deep_view();
    let mut res = String::new();
    let mut i: usize = 0;
    while i < dirs.len()
        invariant
            i <= dirs@.len(),
            dv == dirs.deep_view(),
            res@ == entry_lines(dv.subrange(0, i as int)),
        decreases dirs@.len() - i,
    {
        res.append(dirs[i].as_str());
        res.append("\n");
        proof {
            assert(dv[i as int] == dirs@[i as int]@);
            assert(dv.subrange(0, i + 1).drop_last() =~= dv.subrange(0, i as int));
            assert(dv.subrange(0, i + 1).last() == dv[i as int]);
        }
        i = i + 1;
    }
    proof {
        assert(dv.subrange(0, dv.len() as int) =~= dv);
    }
    res
}

fn render_colon_joined(dirs: &Vec<String>) -> (res: String)
    ensures
        res@ == colon_joined(dirs.deep_view()),
{
    let ghost dv = dirs.deep_view();
    let mut res = String::new();
    let mut i: usize = 0;
    while i < dirs.len()
        invariant
            i <= dirs@.len(),
            dv == dirs.deep_view(),
            res@ == colon_joined(dv.subrange(0, i as int)),
        decreases dirs@.len() - i,
    {
        if i > 0 {
            res.append(":");
        }
        res.append(dirs[i].as_str());
        proof {
            assert(dv[i as int] == dirs@[i as int]@);
            assert(dv.subrange(0, i + 1).drop_last() =~= dv.subrange(0, i as int));
            assert(dv.subrange(0, i + 1).last() == dv[i as int]);
            if i == 0 {
                assert(dv.subrange(0, 1)[0] == dv[0]);
            }
        }
        i = i + 1;
    }
    proof {
        assert(dv.subrange(0, dv.len() as int) =~= dv);
    }
    res
}

/// The configuration rendered as `key=value` lines.
pub fn render_config(config: &Config) -> (res: String)
    ensures
        res@ == config_text(config),
{
    let mut res = String::from_str("respect_vars=");
    if config.respect_vars {
        res.append("true");
    } else {
        res.append("false");
    }
    res.append("\n");
    res.append("respect_path=");
    if config.respect_path {
        res.append("true");
    } else {
        res.append("false");
    }
    res.append("\n");
    res.append("bin_dirs=");
    let joined = render_colon_joined(&config.bin_dirs);
    res.append(joined.as_str());
    res.append("\n");
    res.append("prompt=");
    res.append(config.prompt.as_str());
    res.append("\n");
    res
}

/// What the `state` builtin prints for each selection.
pub open spec fn state_text(
    args: Seq<Seq<char>>,
    vars: Seq<(Seq<char>, Seq<char>)>,
    dirs: Seq<Seq<char>>,
    config: &Config,
) -> (Seq<char>, Seq<char>) {
    if args.len() == 2 {
        if args[1] == "vars"@ {
            (kv_lines(vars), Seq::<char>::empty())
        } else if args[1] == "bin"@ || args[1] == "bin_dirs"@ {
            (entry_lines(dirs), Seq::<char>::empty())
        } else if args[1] == "config"@ {
            (config_text(config), Seq::<char>::empty())
        } else {
            (Seq::<char>::empty(), args[0] + ": Unknown option. "@)
        }
    } else {
        (
            "VARS\n"@ + kv_lines(vars) + "\nBIN_DIRS\n"@ + entry_lines(dirs) + "\nCONFIG\n"@
                + config_text(config),
            Seq::<char>::empty(),
        )
    }
}

/// The introspection builtin: renders the selected section (or all three)
/// as text for standard output, with any diagnostic for standard error.
/// Its exit code is 0 on every input.
pub fn state(
    args: &Vec<String>,
    vars: &Vec<(String, String)>,
    bin_dirs: &Vec<String>,
    config: &Config,
) -> (res: (String, String))
    requires
        args@.len() > 0,
    ensures
        (res.0@, res.1@) == state_text(
            args.deep_view(),
            crate::executor::vars_seq_view(vars@),
            bin_dirs.deep_view(),
            config,
        ),
{
    if args.len() == 2 {
        let sel = &args[1];
        if sel.eq(&String::from_str("vars")) {
            (render_kv_lines(vars), String::new())
        } else if sel.eq(&String::from_str("bin")) || sel.eq(&String::from_str("bin_dirs")) {
            (render_entry_lines(bin_dirs), String::new())
        } else if sel.eq(&String::from_str("config")) {
            (render_config(config), String::new())
        } else {
            let mut err = args[0].clone();
            err.append(": Unknown option. ");
            (String::new(), err)
        }
    } else {
        let mut out = String::from_str("VARS\n");
        let kv = render_kv_lines(vars);
        out.append(kv.as_str());
        out.append("\nBIN_DIRS\n");
        let el = render_entry_lines(bin_dirs);
        out.append(el.as_str());
        out.append("\nCONFIG\n");
        let ct = render_config(config);
        out.append(ct.as_str());
        (out, String::new())
    }
}

} // verus!
