//! The shell orchestrator: it owns the configuration, the resolved binary
//! search path, the shell variables, the history and the edit buffer. It
//! interprets decoded terminal events, and on submission walks the parsed
//! sequence, resolving each command into pipeline stages. The host program
//! performs the forking, descriptor wiring and waiting, and feeds each
//! command's exit code back into the sequencing fold.

use vstd::prelude::*;

use crate::common::{Action, Event};
use crate::config::Config;
use crate::executor::{split_stages, split_stages_spec, Executee, ExecuteeKind, ExecuteeView};
use crate::input::Input;
use crate::parser::bash;
use crate::parser::{Atom, AtomKind, Command, CommandKind, CommandView, SequenceKind};
use vstd::pervasive::VecAdditionalExecFns;

verus! {

// ---------------------------------------------------------------------------
// Shell variables: a name-to-value mapping that keeps insertion order, so
// that introspection output is deterministic.
// ---------------------------------------------------------------------------
/// First index holding key `k` at or after `i`, or the length.
pub open spec fn var_idx_from(m: Seq<(Seq<char>, Seq<char>)>, k: Seq<char>, i: int) -> int
    decreases m.len() - i,
{
    if i < 0 || i >= m.len() {
        m.len() as int
    } else if m[i].0 == k {
        i
    } else {
        var_idx_from(m, k, i + 1)
    }
}

pub open spec fn var_idx(m: Seq<(Seq<char>, Seq<char>)>, k: Seq<char>) -> int {
    var_idx_from(m, k, 0)
}

/// The value bound to `k`, if any.
pub open spec fn var_lookup(m: Seq<(Seq<char>, Seq<char>)>, k: Seq<char>) -> Option<Seq<char>> {
    if var_idx(m, k) < m.len() {
        Some(m[var_idx(m, k)].1)
    } else {
        None
    }
}

/// Binding `k` to `v`: the first entry with key `k` is replaced in place,
/// or a new entry is appended.
pub open spec fn var_insert(
    m: Seq<(Seq<char>, Seq<char>)>,
    k: Seq<char>,
    v: Seq<char>,
) -> Seq<(Seq<char>, Seq<char>)> {
    if var_idx(m, k) < m.len() {
        m.update(var_idx(m, k), (k, v))
    } else {
        m.push((k, v))
    }
}

pub proof fn lemma_var_idx_bounds(m: Seq<(Seq<char>, Seq<char>)>, k: Seq<char>, i: int)
    requires
        0 <= i <= m.len(),
    ensures
        i <= var_idx_from(m, k, i) <= m.len(),
        var_idx_from(m, k, i) < m.len() ==> m[var_idx_from(m, k, i)].0 == k,
    decreases m.len() - i,
{
    if i < m.len() && m[i].0 != k {
        lemma_var_idx_bounds(m, k, i + 1);
    }
}

/// The shell's mutable variable environment.
pub struct Vars {
    pub entries: Vec<(String, String)>,
}

impl View for Vars {
    type V = Seq<(Seq<char>, Seq<char>)>;

    open spec fn view(&self) -> Seq<(Seq<char>, Seq<char>)> {
        crate::executor::vars_seq_view(self.entries@)
    }
}

impl Vars {
    pub fn new() -> (res: Vars)
        ensures
            res@ == Seq::<(Seq<char>, Seq<char>)>::empty(),
    {
        let res = Vars { entries: Vec::new() };
        proof {
            assert(res@ =~= Seq::<(Seq<char>, Seq<char>)>::empty());
        }
        res
    }

    /// Wraps an already-collected list of bindings, as handed over from
    /// the host environment.
    pub fn from_entries(entries: Vec<(String, String)>) -> (res: Vars)
        ensures
            res@ == crate::executor::vars_seq_view(entries@),
    {
        Vars { entries }
    }

    pub fn len(&self) -> (res: usize)
        ensures
            res == self@.len(),
    {
        self.entries.len()
    }

    /// First index holding this key, or the number of entries.
    fn index_of(&self, name: &String) -> (res: usize)
        ensures
            res as int == var_idx(self@, name@),
    {
        let ghost m = self@;
        let mut i: usize = 0;
        while i < self.entries.len() && !self.entries[i].0.eq(name)
            invariant
                i <= self@.len(),
                m == self@,
                var_idx(m, name@) == var_idx_from(m, name@, i as int),
            decreases self@.len() - i,
        {
            proof {
                assert(m[i as int] == (self.entries@[i as int].0@, self.entries@[i as int].1@));
                assert(var_idx_from(m, name@, i as int) == var_idx_from(m, name@, i + 1));
            }
            i = i + 1;
        }
        proof {
            if i < self@.len() {
                assert(m[i as int] == (self.entries@[i as int].0@, self.entries@[i as int].1@));
            }
        }
        i
    }

    /// The value bound to `name`, if any.
    pub fn get(&self, name: &String) -> (res: Option<String>)
        ensures
            match res {
                Some(v) => var_lookup(self@, name@) == Some(v@),
                None => var_lookup(self@, name@) is None,
            },
    {
        let i = self.index_of(name);
        proof {
            lemma_var_idx_bounds(self@, name@, 0);
        }
        if i < self.entries.len() {
            proof {
                assert(self@[i as int] == (
                    self.entries@[i as int].0@,
                    self.entries@[i as int].1@,
                ));
            }
            Some(self.entries[i].1.clone())
        } else {
            None
        }
    }

    /// Binds `name` to `value`, replacing any prior binding in place.
    pub fn insert(&mut self, name: String, value: String)
        ensures
            final(self)@ == var_insert(old(self)@, name@, value@),
    {
        let ghost nk = name@;
        let ghost nv = value@;
        let i = self.index_of(&name);
        proof {
            lemma_var_idx_bounds(self@, name@, 0);
        }
        if i < self.entries.len() {
            self.entries.set(i, (name, value));
            proof {
                assert(self@ =~= old(self)@.update(i as int, (nk, nv)));
            }
        } else {
            self.entries.push((name, value));
            proof {
                assert(self@ =~= old(self)@.push((nk, nv)));
            }
        }
    }

    /// The entries, for rendering and for snapshotting into stages.
    pub fn entries(&self) -> (res: &Vec<(String, String)>)
        ensures
            crate::executor::vars_seq_view(res@) == self@,
    {
        &self.entries
    }

    /// A copy of the entries, in order.
    pub(crate) fn snapshot(&self) -> (res: Vec<(String, String)>)
        ensures
            crate::executor::vars_seq_view(res@) == self@,
    {
        let mut res: Vec<(String, String)> = Vec::new();
        let mut i: usize = 0;
        while i < self.entries.len()
            invariant
                i <= self.entries@.len(),
                res@.len() == i,
                forall|k: int|
                    0 <= k < i ==> #[trigger] res@[k].0@ == self.entries@[k].0@ && res@[k].1@
                        == self.entries@[k].1@,
            decreases self.entries@.len() - i,
        {
            res.push((self.entries[i].0.clone(), self.entries[i].1.clone()));
            i = i + 1;
        }
        proof {
            assert(crate::executor::vars_seq_view(res@) =~= self@);
        }
        res
    }
}

// ---------------------------------------------------------------------------
// Splitting a search path on `:` — empty entries are kept, as path syntax
// has them name the current directory.
// ---------------------------------------------------------------------------
/// First `:` at or after `i`, or the end.
pub open spec fn colon_pos(s: Seq<char>, i: int) -> int
    decreases s.len() - i,
{
    if i < 0 || i >= s.len() {
        s.len() as int
    } else if s[i] == ':' {
        i
    } else {
        colon_pos(s, i + 1)
    }
}

pub proof fn lemma_colon_pos(s: Seq<char>, i: int)
    requires
        0 <= i <= s.len(),
    ensures
        i <= colon_pos(s, i) <= s.len(),
    decreases s.len() - i,
{
    if i < s.len() && s[i] != ':' {
        lemma_colon_pos(s, i + 1);
    }
}

/// The `:`-separated parts of `s` from `i` on.
pub open spec fn colon_split_from(s: Seq<char>, i: int) -> Seq<Seq<char>>
    decreases s.len() - i,
    via colon_split_decreases
{
    if i < 0 || i > s.len() {
        Seq::empty()
    } else {
        let j = colon_pos(s, i);
        if j >= s.len() {
            seq![s.subrange(i, s.len() as int)]
        } else {
            seq![s.subrange(i, j)] + colon_split_from(s, j + 1)
        }
    }
}

#[via_fn]
proof fn colon_split_decreases(s: Seq<char>, i: int) {
    if 0 <= i <= s.len() {
        lemma_colon_pos(s, i);
    }
}

fn colon_pos_exec(s: &Vec<char>, i: usize) -> (j: usize)
    requires
        i <= s@.len(),
    ensures
        j as int == colon_pos(s@, i as int),
        i <= j <= s@.len(),
{
    let mut j = i;
    while j < s.len() && s[j] != ':'
        invariant
            i <= j <= s@.len(),
            colon_pos(s@, i as int) == colon_pos(s@, j as int),
        decreases s@.len() - j,
    {
        proof {
            assert(colon_pos(s@, j as int) == colon_pos(s@, j + 1));
        }
        j = j + 1;
    }
    j
}

fn colon_split_exec(s: &Vec<char>, i: usize) -> (res: Vec<String>)
    requires
        i <= s@.len(),
    ensures
        res.deep_view() == colon_split_from(s@, i as int),
    decreases s@.len() - i,
{
    let j = colon_pos_exec(s, i);
    let part = crate::text::string_of_range(s, i, j);
    if j >= s.len() {
        let mut res: Vec<String> = Vec::new();
        res.push(part);
        proof {
            assert(res.deep_view() =~= seq![s@.subrange(i as int, s@.len() as int)]);
        }
        res
    } else {
        let mut res = colon_split_exec(s, j + 1);
        let ghost tail = res.deep_view();
        res.insert(0, part);
        proof {
            assert(res.deep_view() =~= seq![s@.subrange(i as int, j as int)] + tail);
        }
        res
    }
}

/// Splits a search-path string on `:`, keeping empty parts.
pub fn split_colon(s: &String) -> (res: Vec<String>)
    ensures
        res.deep_view() == colon_split_from(s@, 0),
{
    let chars = crate::text::chars_of_str(s.as_str());
    colon_split_exec(&chars, 0)
}

// ---------------------------------------------------------------------------
// The shell itself
// ---------------------------------------------------------------------------
/// The binary search path the shell runs with: the configured directories,
/// extended by the `PATH` entries when the configuration asks for them.
pub open spec fn resolved_bin_dirs(
    dirs: Seq<Seq<char>>,
    respect_path: bool,
    vars: Seq<(Seq<char>, Seq<char>)>,
) -> Seq<Seq<char>> {
    if respect_path {
        match var_lookup(vars, "PATH"@) {
            Some(p) => dirs + colon_split_from(p, 0),
            None => dirs,
        }
    } else {
        dirs
    }
}

pub struct Shell {
    pub config: Config,
    pub bin_dirs: Vec<String>,
    pub history: Vec<String>,
    pub history_idx: usize,
    pub input: Input,
    pub prompt: String,
    pub vars: Vars,
}

impl Shell {
    /// `history_idx == history.len()` means the buffer is live, not
    /// recalling a history entry.
    pub open spec fn wf(&self) -> bool {
        &&& self.input.wf()
        &&& self.history_idx <= self.history@.len()
    }

    /// Builds the shell from a completed configuration and the host
    /// environment's variables (used only when the configuration says so).
    pub fn new(config: Config, host_vars: Vec<(String, String)>) -> (res: Shell)
        ensures
            res.config == config,
            res.vars@ == if config.respect_vars {
                crate::executor::vars_seq_view(host_vars@)
            } else {
                Seq::<(Seq<char>, Seq<char>)>::empty()
            },
            res.bin_dirs.deep_view() == resolved_bin_dirs(
                config.bin_dirs.deep_view(),
                config.respect_path,
                res.vars@,
            ),
            res.history@ == Seq::<String>::empty(),
            res.history_idx == 0,
            res.input@ == (Seq::<char>::empty(), Seq::<char>::empty()),
            res.prompt@ == config.prompt@,
            res.wf(),
    {
        let vars = if config.respect_vars {
            Vars::from_entries(host_vars)
        } else {
            Vars::new()
        };
        let mut bin_dirs = config.bin_dirs.clone();
        proof {
            assert forall|i: int| 0 <= i < bin_dirs@.len() implies bin_dirs@[i]@
                == config.bin_dirs@[i]@ by {
                assert(cloned::<String>(config.bin_dirs[i], bin_dirs[i]));
            }
            assert(bin_dirs.deep_view() =~= config.bin_dirs.deep_view());
        }
        if config.respect_path {
            match vars.get(&String::from_str("PATH")) {
                Some(path) => {
                    let parts = split_colon(&path);
                    let ghost base = bin_dirs.deep_view();
                    let ghost base_len = bin_dirs@.len() as int;
                    let ghost pv = parts.deep_view();
                    let mut i: usize = 0;
                    while i < parts.len()
                        invariant
                            i <= parts@.len(),
                            pv == parts.deep_view(),
                            bin_dirs@.len() == base_len + i,
                            base.len() == base_len,
                            forall|k: int| 0 <= k < base_len ==> #[trigger] bin_dirs@[k]@
                                == base[k],
                            forall|k: int| 0 <= k < i ==> #[trigger] bin_dirs@[base_len + k]@
                                == pv[k],
                        decreases parts@.len() - i,
                    {
                        bin_dirs.push(parts[i].clone());
                        proof {
                            assert(pv[i as int] == parts@[i as int]@);
                        }
                        i = i + 1;
                    }
                    proof {
                        assert forall|k: int| 0 <= k < bin_dirs@.len() implies bin_dirs.deep_view()[k]
                            == (base + pv)[k] by {
                            if k < base_len {
                                assert(bin_dirs@[k]@ == base[k]);
                            } else {
                                assert(bin_dirs@[base_len + (k - base_len)]@ == pv[k - base_len]);
                            }
                        }
                        assert(bin_dirs.deep_view() =~= base + pv);
                    }
                },
                None => {},
            }
        }
        let prompt = config.prompt.clone();
        let res = Shell {
            config,
            bin_dirs,
            history: Vec::new(),
            history_idx: 0,
            input: Input::new(),
            prompt,
            vars,
        };
        proof {
            assert(res.history@ =~= Seq::<String>::empty());
        }
        res
    }

    pub fn vars(&self) -> (res: &Vars)
        ensures
            res@ == self.vars@,
    {
        &self.vars
    }

    pub fn bin_dirs(&self) -> (res: &Vec<String>)
        ensures
            res.deep_view() == self.bin_dirs.deep_view(),
    {
        &self.bin_dirs
    }

    pub fn config(&self) -> (res: &Config)
        ensures
            res == &self.config,
    {
        &self.config
    }

    pub fn prompt(&self) -> (res: String)
        ensures
            res@ == self.prompt@,
    {
        self.prompt.clone()
    }

    /// The current line text.
    pub fn line(&self) -> (res: String)
        ensures
            res@ == self.input.line(),
    {
        self.input.raw()
    }

    /// The cursor's distance from the end of the line.
    pub fn position(&self) -> (res: usize)
        ensures
            res == self.input@.1.len(),
    {
        self.input.position()
    }

    /// Replaces the current line, cursor at the end.
    pub fn set_line(&mut self, line: &str)
        ensures
            final(self).input@ == (line@, Seq::<char>::empty()),
            final(self).input.wf(),
            final(self).config == old(self).config,
            final(self).bin_dirs == old(self).bin_dirs,
            final(self).history == old(self).history,
            final(self).history_idx == old(self).history_idx,
            final(self).prompt == old(self).prompt,
            final(self).vars == old(self).vars,
    {
        self.input.set(line);
    }

    /// Neither the configuration, the search path, the prompt nor the
    /// variables change while editing.
    pub open spec fn env_same(a: Shell, b: Shell) -> bool {
        &&& a.config == b.config
        &&& a.bin_dirs == b.bin_dirs
        &&& a.prompt == b.prompt
        &&& a.vars == b.vars
    }

    /// Interprets one decoded terminal event against the shell state and
    /// says what the caller must do next. Editing keys mutate the buffer;
    /// Up and Down recall history; pressing Up at the oldest entry stops
    /// advancing, and pressing Down past the newest returns to an empty
    /// live buffer exactly when `history_idx` reaches `history.len()`
    /// (provided no recorded line is empty).
    pub fn event(&mut self, event: &Event) -> (r: Action)
        requires
            old(self).wf(),
        ensures
            final(self).wf(),
            Shell::env_same(*old(self), *final(self)),
            final(self).history == old(self).history,
            *event == Event::Return ==> final(self).input@ == old(self).input@ && final(self).history_idx == old(self).history_idx && r == Action::Process,
            *event matches Event::Char(c) ==> final(self).history_idx == old(self).history_idx
                && if c == '\n' {
                final(self).input@ == old(self).input@ && r == Action::Process
            } else {
                final(self).input@ == (old(self).input@.0.push(c), old(self).input@.1) && r
                    == Action::Continue
            },
            *event matches Event::Ctrl(c) ==> final(self).history_idx == old(self).history_idx
                && if c == 'c' || c == 'C' {
                final(self).input@ == (Seq::<char>::empty(), Seq::<char>::empty()) && r
                    == Action::Continue
            } else if c == 'd' || c == 'D' {
                final(self).input@ == old(self).input@ && (r == Action::Exit <==> old(self).input.line().len() == 0) && (r == Action::Exit || r == Action::Continue)
            } else if c == 'l' || c == 'L' {
                final(self).input@ == old(self).input@ && r == Action::ClearScreen
            } else {
                final(self).input@ == old(self).input@ && r == Action::Continue
            },
            *event == Event::Backspace ==> final(self).history_idx == old(self).history_idx && r
                == Action::Continue && final(self).input@.1 == old(self).input@.1 && final(self).input@.0 == if old(self).input@.0.len() > 0 {
                old(self).input@.0.drop_last()
            } else {
                old(self).input@.0
            },
            *event == Event::Delete ==> final(self).history_idx == old(self).history_idx && r
                == Action::Continue && final(self).input@.0 == old(self).input@.0 && final(self).input@.1 == if old(self).input@.1.len() > 0 {
                old(self).input@.1.skip(1)
            } else {
                old(self).input@.1
            },
            *event == Event::Up ==> r == Action::Continue && if old(self).history_idx > 0 && old(self).history@.len() > 0 {
                final(self).history_idx == old(self).history_idx - 1 && final(self).input@ == (
                    old(self).history@[old(self).history_idx - 1]@,
                    Seq::<char>::empty(),
                )
            } else {
                final(self).history_idx == old(self).history_idx && final(self).input@ == old(self).input@
            },
            *event == Event::Down ==> r == Action::Continue && if old(self).history_idx + 1 < old(self).history@.len() {
                final(self).history_idx == old(self).history_idx + 1 && final(self).input@ == (
                    old(self).history@[old(self).history_idx + 1]@,
                    Seq::<char>::empty(),
                )
            } else {
                final(self).history_idx == old(self).history@.len() && final(self).input@ == (
                    Seq::<char>::empty(),
                    Seq::<char>::empty(),
                )
            },
            *event == Event::Down && (forall|i: int|
                0 <= i < old(self).history@.len() ==> (#[trigger] old(self).history@[i])@.len()
                    > 0) ==> (final(self).history_idx == final(self).history@.len() <==> final(self).input.line().len() == 0),
            *event == Event::Left ==> final(self).history_idx == old(self).history_idx && r
                == Action::Continue && final(self).input.line() == old(self).input.line() && (old(self).input@.0.len() == 0 ==> final(self).input@ == old(self).input@) && (old(self).input@.0.len() > 0 ==> final(self).input@ == (
                old(self).input@.0.drop_last(),
                seq![old(self).input@.0.last()] + old(self).input@.1,
            )),
            *event == Event::Right ==> final(self).history_idx == old(self).history_idx && r
                == Action::Continue && final(self).input.line() == old(self).input.line() && (old(self).input@.1.len() == 0 ==> final(self).input@ == old(self).input@) && (old(self).input@.1.len() > 0 ==> final(self).input@ == (
                old(self).input@.0.push(old(self).input@.1[0]),
                old(self).input@.1.skip(1),
            )),
            (*event == Event::Tab || *event == Event::Home || *event == Event::End || *event
                == Event::PageUp || *event == Event::PageDown || *event == Event::Insert || *event
                == Event::Null || *event matches Event::Function(_) || *event matches Event::Alt(_)
                || *event == Event::Unrecognized) ==> final(self).input@ == old(self).input@
                && final(self).history_idx == old(self).history_idx && r == Action::Continue,
    {
        match *event {
            Event::Return => Action::Process,
            Event::Char(c) => {
                if c == '\n' {
                    Action::Process
                } else {
                    self.input.push(c);
                    Action::Continue
                }
            },
            Event::Ctrl(c) => {
                if c == 'c' || c == 'C' {
                    self.input.clear();
                    Action::Continue
                } else if c == 'd' || c == 'D' {
                    if self.input.is_empty() {
                        Action::Exit
                    } else {
                        Action::Continue
                    }
                } else if c == 'l' || c == 'L' {
                    Action::ClearScreen
                } else {
                    Action::Continue
                }
            },
            Event::Backspace => {
                self.input.pop_prev();
                Action::Continue
            },
            Event::Delete => {
                self.input.pop_next();
                Action::Continue
            },
            Event::Up => {
                if self.history_idx > 0 && self.history.len() > 0 {
                    self.history_idx = self.history_idx - 1;
                    let line = self.history[self.history_idx].clone();
                    self.input.set(line.as_str());
                }
                Action::Continue
            },
            Event::Down => {
                let len = self.history.len();
                if len > 0 && self.history_idx < len - 1 {
                    self.history_idx = self.history_idx + 1;
                    let line = self.history[self.history_idx].clone();
                    self.input.set(line.as_str());
                } else {
                    self.history_idx = self.history.len();
                    self.input.clear();
                }
                Action::Continue
            },
            Event::Left => {
                self.input.left();
                Action::Continue
            },
            Event::Right => {
                self.input.right();
                Action::Continue
            },
            _ => Action::Continue,
        }
    }
}

// ---------------------------------------------------------------------------
// Command classification and binary resolution
// ---------------------------------------------------------------------------
pub open spec fn opt_str_view(o: Option<String>) -> Option<Seq<char>> {
    match o {
        Some(s) => Some(s@),
        None => None,
    }
}

/// How a stage's command word runs: `cd` must run in the shell's own
/// process; `state`/`self` run the introspection builtin in a child; any
/// other word runs the resolved binary, or the unknown-command builtin if
/// resolution found none.
pub open spec fn classify_spec(word: Seq<char>, resolved: Option<Seq<char>>) -> crate::executor::ExecuteeKindView {
    if word == "cd"@ {
        crate::executor::ExecuteeKindView::StrongBuiltin("cd"@)
    } else if word == "state"@ || word == "self"@ {
        crate::executor::ExecuteeKindView::WeakBuiltin("state"@)
    } else {
        match resolved {
            Some(p) => crate::executor::ExecuteeKindView::Binary(p),
            None => crate::executor::ExecuteeKindView::WeakBuiltin("fail"@),
        }
    }
}

/// Classifies one command word, given the result of binary resolution.
pub fn classify(word: &String, resolved: &Option<String>) -> (res: ExecuteeKind)
    ensures
        res@ == classify_spec(word@, match *resolved {
            Some(p) => Some(p@),
            None => None,
        }),
{
    if word.eq(&String::from_str("cd")) {
        ExecuteeKind::StrongBuiltin(String::from_str("cd"))
    } else if word.eq(&String::from_str("state")) || word.eq(&String::from_str("self")) {
        ExecuteeKind::WeakBuiltin(String::from_str("state"))
    } else {
        match resolved {
            Some(p) => ExecuteeKind::Binary(p.clone()),
            None => ExecuteeKind::WeakBuiltin(String::from_str("fail")),
        }
    }
}

/// The path tried for a command word in one search directory.
pub open spec fn candidate_path(dir: Seq<char>, cmd: Seq<char>) -> Seq<char> {
    dir + "/"@ + cmd
}

/// First index whose flag is set, or the length.
pub open spec fn first_true(v: Seq<bool>, i: int) -> int
    decreases v.len() - i,
{
    if i < 0 || i >= v.len() {
        v.len() as int
    } else if v[i] {
        i
    } else {
        first_true(v, i + 1)
    }
}

pub proof fn lemma_first_true(v: Seq<bool>, i: int)
    requires
        0 <= i <= v.len(),
    ensures
        i <= first_true(v, i) <= v.len(),
        first_true(v, i) < v.len() ==> v[first_true(v, i)],
    decreases v.len() - i,
{
    if i < v.len() && !v[i] {
        lemma_first_true(v, i + 1);
    }
}

impl Shell {
    /// The paths at which a command word would be looked for, one per
    /// search directory, in search order.
    pub fn bin_candidates(&self, command: &String) -> (res: Vec<String>)
        ensures
            res@.len() == self.bin_dirs@.len(),
            forall|i: int|
                0 <= i < res@.len() ==> #[trigger] res.deep_view()[i] == candidate_path(
                    self.bin_dirs.deep_view()[i],
                    command@,
                ),
    {
        let mut res: Vec<String> = Vec::new();
        let mut i: usize = 0;
        while i < self.bin_dirs.len()
            invariant
                i <= self.bin_dirs@.len(),
                res@.len() == i,
                forall|k: int|
                    0 <= k < i ==> #[trigger] res@[k]@ == candidate_path(
                        self.bin_dirs@[k]@,
                        command@,
                    ),
            decreases self.bin_dirs@.len() - i,
        {
            let mut p = self.bin_dirs[i].clone();
            p.append("/");
            p.append(command.as_str());
            res.push(p);
            i = i + 1;
        }
        proof {
            assert forall|k: int| 0 <= k < res@.len() implies #[trigger] res.deep_view()[k]
                == candidate_path(self.bin_dirs.deep_view()[k], command@) by {
                assert(res.deep_view()[k] == res@[k]@);
                assert(self.bin_dirs.deep_view()[k] == self.bin_dirs@[k]@);
            }
        }
        res
    }

    /// Resolves a command word against the search path, given which of the
    /// candidate paths exist: the first existing candidate wins, in search
    /// order; with no hit the word stays unresolved.
    pub fn find_bin(&self, command: &String, exists: &Vec<bool>) -> (res: Option<String>)
        requires
            exists@.len() == self.bin_dirs@.len(),
        ensures
            first_true(exists@, 0) < exists@.len() ==> (res matches Some(p) && p@
                == candidate_path(
                self.bin_dirs.deep_view()[first_true(exists@, 0)],
                command@,
            )),
            first_true(exists@, 0) >= exists@.len() ==> res is None,
    {
        let candidates = self.bin_candidates(command);
        let mut i: usize = 0;
        while i < exists.len() && !exists[i]
            invariant
                i <= exists@.len(),
                first_true(exists@, 0) == first_true(exists@, i as int),
            decreases exists@.len() - i,
        {
            proof {
                assert(first_true(exists@, i as int) == first_true(exists@, i + 1));
            }
            i = i + 1;
        }
        if i < exists.len() {
            let p = candidates[i].clone();
            proof {
                assert(candidates.deep_view()[i as int] == candidate_path(
                    self.bin_dirs.deep_view()[i as int],
                    command@,
                ));
                assert(p@ == candidates@[i as int]@);
            }
            Some(p)
        } else {
            None
        }
    }
}

// ---------------------------------------------------------------------------
// Walking a submitted sequence
// ---------------------------------------------------------------------------
/// Whether a command runs, given its operator and the previous exit code.
pub open spec fn should_run(op: SequenceKind, retcode: u8) -> bool {
    match op {
        SequenceKind::Always => true,
        SequenceKind::And => retcode == 0,
        SequenceKind::Or => retcode != 0,
    }
}

fn should_run_exec(op: SequenceKind, retcode: u8) -> (r: bool)
    ensures
        r == should_run(op, retcode),
{
    match op {
        SequenceKind::Always => true,
        SequenceKind::And => retcode == 0,
        SequenceKind::Or => retcode != 0,
    }
}

/// The state of one submitted line being walked: the parsed commands, the
/// position reached, and the running exit code, which the last processed
/// command's code replaces.
pub struct ProcessRun {
    pub commands: Vec<(SequenceKind, Command)>,
    pub idx: usize,
    pub retcode: u8,
}

impl ProcessRun {
    pub open spec fn cmds(&self) -> Seq<(SequenceKind, CommandView)> {
        bash::cmds_view(self.commands@)
    }

    pub open spec fn wf(&self) -> bool {
        &&& self.idx <= self.commands@.len()
        &&& forall|k: int|
            0 <= k < self.cmds().len() ==> bash::cmd_assign_wf((#[trigger] self.cmds()[k]).1)
    }

    /// Records the exit code of the command just handed out by
    /// `process_next`.
    pub fn report(&mut self, code: u8)
        ensures
            final(self).commands == old(self).commands,
            final(self).idx == old(self).idx,
            final(self).retcode == code,
            old(self).wf() ==> final(self).wf(),
    {
        self.retcode = code;
        proof {
            assert(self.cmds() == old(self).cmds());
        }
    }

    /// The walk's exit code so far; after `process_next` returns
    /// `Finished`, the whole line's exit code.
    pub fn result(&self) -> (r: u8)
        ensures
            r == self.retcode,
    {
        self.retcode
    }
}

/// What one walking step did.
pub enum Processed {
    /// The next command's operator refused it; nothing ran.
    Skipped,
    /// The next command was a variable assignment; it ran in the shell.
    Assigned,
    /// The next command must be executed; hand its exit code to `report`.
    Run(Command),
    /// No commands are left.
    Finished,
}

/// The text of a word atom.
pub open spec fn word_text(k: crate::parser::AtomKindView) -> Seq<char> {
    match k {
        crate::parser::AtomKindView::Word(w) => w,
        _ => Seq::empty(),
    }
}

impl Shell {
    /// Takes the current line as one submission: records it in the
    /// history, resets history recall to live, clears the buffer, and
    /// returns the walk state for the parsed sequence.
    pub fn process(&mut self) -> (run: ProcessRun)
        requires
            old(self).wf(),
        ensures
            final(self).wf(),
            Shell::env_same(*old(self), *final(self)),
            final(self).history.deep_view() == old(self).history.deep_view().push(
                old(self).input.line(),
            ),
            final(self).history_idx == final(self).history@.len(),
            final(self).input@ == (Seq::<char>::empty(), Seq::<char>::empty()),
            run.cmds() == bash::parse_spec(old(self).input.line()),
            run.idx == 0,
            run.retcode == 0,
            run.wf(),
    {
        let sequence = self.input.get();
        let raw = self.input.raw();
        let ghost line = old(self).input.line();
        self.history.push(raw);
        self.history_idx = self.history.len();
        self.input.clear();
        let commands = sequence.get();
        let run = ProcessRun { commands, idx: 0, retcode: 0 };
        proof {
            assert(self.history.deep_view() =~= old(self).history.deep_view().push(line));
            assert(run.cmds() =~= bash::parse_spec(line));
            bash::lemma_parse_spec_wf(line);
            assert forall|k: int| 0 <= k < run.cmds().len() implies bash::cmd_assign_wf(
                (#[trigger] run.cmds()[k]).1,
            ) by {
                assert(run.cmds()[k] == bash::parse_spec(line)[k]);
            }
        }
        run
    }

    /// Performs an assignment command: binds the name word to the value
    /// word and reports success.
    pub fn process_assign(&mut self, atoms: Vec<Atom>) -> (code: u8)
        requires
            atoms.deep_view().len() == 2,
            atoms.deep_view()[0].kind is Word,
            atoms.deep_view()[1].kind is Word,
        ensures
            code == 0,
            final(self).vars@ == var_insert(
                old(self).vars@,
                word_text(atoms.deep_view()[0].kind),
                word_text(atoms.deep_view()[1].kind),
            ),
            final(self).input@ == old(self).input@,
            final(self).input.wf() == old(self).input.wf(),
            final(self).history == old(self).history,
            final(self).history_idx == old(self).history_idx,
            final(self).config == old(self).config,
            final(self).bin_dirs == old(self).bin_dirs,
            final(self).prompt == old(self).prompt,
    {
        let name = match atoms[0].kind() {
            AtomKind::Word(w) => w,
            _ => {
                proof {
                    assert(false);
                }
                String::new()
            },
        };
        let value = match atoms[1].kind() {
            AtomKind::Word(w) => w,
            _ => {
                proof {
                    assert(false);
                }
                String::new()
            },
        };
        self.vars.insert(name, value);
        0
    }

    /// Advances the walk by one command: skips it, performs it (an
    /// assignment), or hands it out for execution. After a `Run` result
    /// the caller executes the command's stages and records the exit code
    /// with `report` before the next step.
    pub fn process_next(&mut self, run: &mut ProcessRun) -> (r: Processed)
        requires
            old(run).wf(),
        ensures
            final(run).wf(),
            final(run).commands == old(run).commands,
            final(self).input@ == old(self).input@,
            final(self).input.wf() == old(self).input.wf(),
            final(self).history == old(self).history,
            final(self).history_idx == old(self).history_idx,
            final(self).config == old(self).config,
            final(self).bin_dirs == old(self).bin_dirs,
            final(self).prompt == old(self).prompt,
            old(run).idx >= old(run).cmds().len() ==> r == Processed::Finished && final(run).idx
                == old(run).idx && final(run).retcode == old(run).retcode && final(self).vars
                == old(self).vars,
            old(run).idx < old(run).cmds().len() ==> final(run).idx == old(run).idx + 1 && {
                let op = old(run).cmds()[old(run).idx as int].0;
                let cmd = old(run).cmds()[old(run).idx as int].1;
                if !should_run(op, old(run).retcode) {
                    &&& r == Processed::Skipped
                    &&& final(run).retcode == old(run).retcode
                    &&& final(self).vars == old(self).vars
                } else if cmd.kind is Assign {
                    &&& r == Processed::Assigned
                    &&& final(run).retcode == 0
                    &&& final(self).vars@ == var_insert(
                        old(self).vars@,
                        word_text(cmd.atoms[0].kind),
                        word_text(cmd.atoms[1].kind),
                    )
                } else {
                    &&& r matches Processed::Run(c) && c@ == cmd
                    &&& final(run).retcode == old(run).retcode
                    &&& final(self).vars == old(self).vars
                }
            },
    {
        if run.idx >= run.commands.len() {
            return Processed::Finished;
        }
        let i = run.idx;
        proof {
            assert(run.cmds()[i as int] == (run.commands@[i as int].0, run.commands@[i as int].1@));
        }
        let op = run.commands[i].0;
        let cmd = run.commands[i].1.clone();
        run.idx = i + 1;
        if !should_run_exec(op, run.retcode) {
            return Processed::Skipped;
        }
        match cmd.kind() {
            CommandKind::Assign => {
                let code = self.process_assign(cmd.atoms());
                run.retcode = code;
                Processed::Assigned
            },
            CommandKind::Execute => Processed::Run(cmd),
        }
    }

    /// Resolves one `Execute` command into its classified pipeline stages.
    /// `resolved[i]` is the binary-resolution result for stage `i`'s first
    /// word (see `find_bin`); every stage gets a snapshot of the current
    /// variables as its environment.
    pub fn process_execute(&self, atoms: &Vec<Atom>, resolved: &Vec<Option<String>>) -> (res: Vec<
        Executee,
    >)
        requires
            resolved@.len() == split_stages_spec(atoms.deep_view()).len(),
        ensures
            res@.len() == split_stages_spec(atoms.deep_view()).len(),
            forall|i: int|
                0 <= i < res@.len() ==> #[trigger] res@[i]@ == resolve_stage_spec(
                    split_stages_spec(atoms.deep_view())[i],
                    opt_str_view(resolved@[i]),
                    self.vars@,
                ),
    {
        let ghost stage_views = split_stages_spec(atoms.deep_view());
        let mut stages = split_stages(atoms);
        let mut res: Vec<Executee> = Vec::new();
        let mut i: usize = 0;
        let n = stages.len();
        while i < n
            invariant
                i <= n,
                n == stage_views.len(),
                stages@.len() == n - i,
                forall|k: int|
                    0 <= k < n - i ==> #[trigger] stages@[k]@ == stage_views[i + k],
                resolved@.len() == n,
                res@.len() == i,
                forall|k: int|
                    0 <= k < i ==> #[trigger] res@[k]@ == resolve_stage_spec(
                        stage_views[k],
                        opt_str_view(resolved@[k]),
                        self.vars@,
                    ),
            decreases n - i,
        {
            let ghost pre = stages@;
            let mut e = stages.remove(0);
            proof {
                assert(stages@ =~= pre.skip(1));
                assert forall|k: int| 0 <= k < n - i - 1 implies #[trigger] stages@[k]@
                    == stage_views[i + 1 + k] by {
                    assert(stages@[k] == pre[k + 1]);
                }
            }
            if e.args().len() > 0 {
                let args_ref = e.args();
                proof {
                    assert(args_ref.deep_view().len() == args_ref@.len());
                    assert(args_ref.deep_view() == e@.args);
                }
                let w = args_ref[0].clone();
                let kind = classify(&w, &resolved[i]);
                e.set_kind(kind);
            }
            e.set_vars(self.vars.snapshot());
            res.push(e);
            i = i + 1;
        }
        res
    }
}

// ---------------------------------------------------------------------------
// The sequencing fold as one mathematical function
// ---------------------------------------------------------------------------
/// The whole walk of a sequence, given the exit code each command would
/// report if processed (`0` for assignments): the indices of the commands
/// that run, and the final exit code. One `process_next`/`report` round
/// performs exactly one unfolding of this function (see
/// `lemma_drive_step`).
pub open spec fn drive(
    cmds: Seq<(SequenceKind, CommandView)>,
    codes: Seq<u8>,
    i: int,
    retcode: u8,
) -> (Seq<int>, u8)
    decreases cmds.len() - i,
{
    if i < 0 || i >= cmds.len() {
        (Seq::empty(), retcode)
    } else if !should_run(cmds[i].0, retcode) {
        drive(cmds, codes, i + 1, retcode)
    } else {
        let code = if 0 <= i < codes.len() {
            codes[i]
        } else {
            0
        };
        let rest = drive(cmds, codes, i + 1, code);
        (seq![i] + rest.0, rest.1)
    }
}

/// One unfolding of the sequencing fold: exactly what one
/// `process_next`/`report` round does to `(idx, retcode)`.
pub proof fn lemma_drive_step(
    cmds: Seq<(SequenceKind, CommandView)>,
    codes: Seq<u8>,
    i: int,
    retcode: u8,
)
    requires
        0 <= i < cmds.len(),
    ensures
        !should_run(cmds[i].0, retcode) ==> drive(cmds, codes, i, retcode) == drive(
            cmds,
            codes,
            i + 1,
            retcode,
        ),
        should_run(cmds[i].0, retcode) && 0 <= i < codes.len() ==> drive(cmds, codes, i, retcode)
            == (
            seq![i] + drive(cmds, codes, i + 1, codes[i]).0,
            drive(cmds, codes, i + 1, codes[i]).1,
        ),
{
}

/// Sequencing short-circuit, `&&` side: in `c1 && c2` with `c1` failing
/// (exit code `n != 0`), the second command never runs and the reported
/// code is `n`.
pub proof fn lemma_short_circuit_and(c1: CommandView, c2: CommandView, n: u8, z: u8)
    requires
        n != 0,
    ensures
        drive(seq![(SequenceKind::Always, c1), (SequenceKind::And, c2)], seq![n, z], 0, 0).0
            == seq![0int],
        drive(seq![(SequenceKind::Always, c1), (SequenceKind::And, c2)], seq![n, z], 0, 0).1 == n,
{
    let cmds = seq![(SequenceKind::Always, c1), (SequenceKind::And, c2)];
    let codes = seq![n, z];
    assert(drive(cmds, codes, 2, n) == (Seq::<int>::empty(), n));
    assert(drive(cmds, codes, 1, n) == (Seq::<int>::empty(), n));
    assert(drive(cmds, codes, 0, 0).0 =~= seq![0int]);
}

/// Sequencing short-circuit, `||` side: in `c1 || c2` with `c1` failing
/// (exit code `n != 0`), the second command runs and its code `z` is
/// reported.
pub proof fn lemma_short_circuit_or(c1: CommandView, c2: CommandView, n: u8, z: u8)
    requires
        n != 0,
    ensures
        drive(seq![(SequenceKind::Always, c1), (SequenceKind::Or, c2)], seq![n, z], 0, 0).0
            == seq![0int, 1int],
        drive(seq![(SequenceKind::Always, c1), (SequenceKind::Or, c2)], seq![n, z], 0, 0).1 == z,
{
    let cmds = seq![(SequenceKind::Always, c1), (SequenceKind::Or, c2)];
    let codes = seq![n, z];
    assert(drive(cmds, codes, 2, z) == (Seq::<int>::empty(), z));
    assert(drive(cmds, codes, 1, n).0 =~= seq![1int]);
    assert(drive(cmds, codes, 0, 0).0 =~= seq![0int, 1int]);
}

/// A stage after resolution: its first word decides how it runs, the
/// variable snapshot becomes its environment, and its arguments and
/// redirects stay as split.
pub open spec fn resolve_stage_spec(
    e: ExecuteeView,
    r: Option<Seq<char>>,
    vars: Seq<(Seq<char>, Seq<char>)>,
) -> ExecuteeView {
    ExecuteeView {
        kind: if e.args.len() == 0 {
            e.kind
        } else {
            classify_spec(e.args[0], r)
        },
        vars,
        ..e
    }
}

} // verus!
