//! Units of execution. A parsed `Execute` command is split at its pipes
//! into stages; each stage becomes one `Executee`: a classified command
//! (builtin or binary), its argument words, a snapshot of the shell
//! variables, and its redirect requests in declaration order. Realizing an
//! `Executee` as an OS process (forking, wiring descriptors, waiting) is
//! the host program's business; this module fixes exactly *what* is to be
//! run and with which descriptor table edits and open modes.

use vstd::prelude::*;

use crate::parser::{Atom, AtomKindView};

verus! {

/// How a stage runs: inside the shell process (strong builtin), inside a
/// forked child (weak builtin), or by replacing a child's image with the
/// binary at the resolved path.
pub enum ExecuteeKind {
    StrongBuiltin(String),
    WeakBuiltin(String),
    Binary(String),
}

pub enum ExecuteeKindView {
    StrongBuiltin(Seq<char>),
    WeakBuiltin(Seq<char>),
    Binary(Seq<char>),
}

impl View for ExecuteeKind {
    type V = ExecuteeKindView;

    open spec fn view(&self) -> ExecuteeKindView {
        match self {
            ExecuteeKind::StrongBuiltin(n) => ExecuteeKindView::StrongBuiltin(n@),
            ExecuteeKind::WeakBuiltin(n) => ExecuteeKindView::WeakBuiltin(n@),
            ExecuteeKind::Binary(p) => ExecuteeKindView::Binary(p@),
        }
    }
}

impl Clone for ExecuteeKind {
    fn clone(&self) -> (res: ExecuteeKind)
        ensures
            res@ == self@,
    {
        match self {
            ExecuteeKind::StrongBuiltin(n) => ExecuteeKind::StrongBuiltin(n.clone()),
            ExecuteeKind::WeakBuiltin(n) => ExecuteeKind::WeakBuiltin(n.clone()),
            ExecuteeKind::Binary(p) => ExecuteeKind::Binary(p.clone()),
        }
    }
}

/// One redirect request: what to wire onto a destination descriptor.
pub enum RedirectKind {
    /// Duplicate this source descriptor.
    Dup(i32),
    /// Duplicate this source descriptor, then close it.
    Mov(i32),
    /// Open this file read-only.
    Read(String),
    /// Open this file for writing, creating it, truncating prior content.
    Write(String),
    /// Open this file for writing, creating it, appending to prior content.
    Append(String),
    /// Open this file read-write, creating it, truncating prior content.
    RW(String),
}

pub enum RedirectKindView {
    Dup(int),
    Mov(int),
    Read(Seq<char>),
    Write(Seq<char>),
    Append(Seq<char>),
    RW(Seq<char>),
}

impl View for RedirectKind {
    type V = RedirectKindView;

    open spec fn view(&self) -> RedirectKindView {
        match self {
            RedirectKind::Dup(fd) => RedirectKindView::Dup(*fd as int),
            RedirectKind::Mov(fd) => RedirectKindView::Mov(*fd as int),
            RedirectKind::Read(f) => RedirectKindView::Read(f@),
            RedirectKind::Write(f) => RedirectKindView::Write(f@),
            RedirectKind::Append(f) => RedirectKindView::Append(f@),
            RedirectKind::RW(f) => RedirectKindView::RW(f@),
        }
    }
}

/// The mode with which a redirect's file is opened. Created files get
/// owner read/write, group read, other read permission bits
/// ([`CREATE_MODE_BITS`]).
pub struct OpenPlan {
    pub read: bool,
    pub write: bool,
    pub create: bool,
    pub truncate: bool,
    pub append: bool,
}

/// Permission bits for files created by redirects: owner read/write,
/// group read, other read.
pub const CREATE_MODE_BITS: u32 = 0o644;

impl RedirectKind {
    /// The open mode of a file redirect; descriptor duplication and moves
    /// open nothing.
    pub fn open_plan(&self) -> (res: Option<OpenPlan>)
        ensures
            match self@ {
                RedirectKindView::Dup(_) => res is None,
                RedirectKindView::Mov(_) => res is None,
                RedirectKindView::Read(_) => res matches Some(p) && p == (OpenPlan {
                    read: true,
                    write: false,
                    create: false,
                    truncate: false,
                    append: false,
                }),
                RedirectKindView::Write(_) => res matches Some(p) && p == (OpenPlan {
                    read: false,
                    write: true,
                    create: true,
                    truncate: true,
                    append: false,
                }),
                RedirectKindView::Append(_) => res matches Some(p) && p == (OpenPlan {
                    read: false,
                    write: true,
                    create: true,
                    truncate: false,
                    append: true,
                }),
                RedirectKindView::RW(_) => res matches Some(p) && p == (OpenPlan {
                    read: true,
                    write: true,
                    create: true,
                    truncate: true,
                    append: false,
                }),
            },
    {
        match self {
            RedirectKind::Dup(_) => None,
            RedirectKind::Mov(_) => None,
            RedirectKind::Read(_) => Some(
                OpenPlan { read: true, write: false, create: false, truncate: false, append: false },
            ),
            RedirectKind::Write(_) => Some(
                OpenPlan { read: false, write: true, create: true, truncate: true, append: false },
            ),
            RedirectKind::Append(_) => Some(
                OpenPlan { read: false, write: true, create: true, truncate: false, append: true },
            ),
            RedirectKind::RW(_) => Some(
                OpenPlan { read: true, write: true, create: true, truncate: true, append: false },
            ),
        }
    }
}

/// A fully resolved unit of execution for one pipeline stage.
pub struct Executee {
    pub kind: ExecuteeKind,
    pub args: Vec<String>,
    pub vars: Vec<(String, String)>,
    pub redirect: Vec<(RedirectKind, i32)>,
}

pub struct ExecuteeView {
    pub kind: ExecuteeKindView,
    pub args: Seq<Seq<char>>,
    pub vars: Seq<(Seq<char>, Seq<char>)>,
    pub redirect: Seq<(RedirectKindView, int)>,
}

/// The view of a variable snapshot.
pub open spec fn vars_seq_view(v: Seq<(String, String)>) -> Seq<(Seq<char>, Seq<char>)> {
    v.map_values(|p: (String, String)| (p.0@, p.1@))
}

/// The view of a redirect list.
pub open spec fn redirect_seq_view(v: Seq<(RedirectKind, i32)>) -> Seq<(RedirectKindView, int)> {
    v.map_values(|p: (RedirectKind, i32)| (p.0@, p.1 as int))
}

impl View for Executee {
    type V = ExecuteeView;

    open spec fn view(&self) -> ExecuteeView {
        ExecuteeView {
            kind: self.kind@,
            args: self.args.deep_view(),
            vars: vars_seq_view(self.vars@),
            redirect: redirect_seq_view(self.redirect@),
        }
    }
}

/// A stage before classification: no arguments, no variables, no
/// redirects, and the do-nothing weak builtin as its command.
pub open spec fn empty_executee() -> ExecuteeView {
    ExecuteeView {
        kind: ExecuteeKindView::WeakBuiltin("void"@),
        args: Seq::empty(),
        vars: Seq::empty(),
        redirect: Seq::empty(),
    }
}

impl Executee {
    pub fn new() -> (res: Executee)
        ensures
            res@ == empty_executee(),
    {
        let res = Executee {
            kind: ExecuteeKind::WeakBuiltin(String::from_str("void")),
            args: Vec::new(),
            vars: Vec::new(),
            redirect: Vec::new(),
        };
        proof {
            assert(res@.args =~= empty_executee().args);
            assert(res@.vars =~= empty_executee().vars);
            assert(res@.redirect =~= empty_executee().redirect);
        }
        res
    }

    pub fn set_kind(&mut self, kind: ExecuteeKind)
        ensures
            final(self)@ == (ExecuteeView { kind: kind@, ..old(self)@ }),
    {
        self.kind = kind;
    }

    /// Appends one argument word.
    pub fn arg(&mut self, word: String)
        ensures
            final(self)@ == (ExecuteeView { args: old(self)@.args.push(word@), ..old(self)@ }),
    {
        self.args.push(word);
        proof {
            assert(self@.args =~= old(self)@.args.push(word@));
        }
    }

    fn redirect(&mut self, src: RedirectKind, dst: i32)
        ensures
            final(self)@ == (ExecuteeView {
                redirect: old(self)@.redirect.push((src@, dst as int)),
                ..old(self)@
            }),
    {
        let ghost sv = src@;
        self.redirect.push((src, dst));
        proof {
            assert(self@.redirect =~= old(self)@.redirect.push((sv, dst as int)));
        }
    }

    /// Requests that descriptor `src` be duplicated onto `dst`.
    pub fn fd_duplicate(&mut self, src: i32, dst: i32)
        ensures
            final(self)@ == (ExecuteeView {
                redirect: old(self)@.redirect.push((RedirectKindView::Dup(src as int), dst as int)),
                ..old(self)@
            }),
    {
        self.redirect(RedirectKind::Dup(src), dst);
    }

    /// Requests that descriptor `src` be duplicated onto `dst` and then
    /// closed.
    pub fn fd_move(&mut self, src: i32, dst: i32)
        ensures
            final(self)@ == (ExecuteeView {
                redirect: old(self)@.redirect.push((RedirectKindView::Mov(src as int), dst as int)),
                ..old(self)@
            }),
    {
        self.redirect(RedirectKind::Mov(src), dst);
    }

    /// Requests that `file` be opened write/create/truncate onto `fd`.
    pub fn file_write(&mut self, file: String, fd: i32)
        ensures
            final(self)@ == (ExecuteeView {
                redirect: old(self)@.redirect.push((RedirectKindView::Write(file@), fd as int)),
                ..old(self)@
            }),
    {
        self.redirect(RedirectKind::Write(file), fd);
    }

    /// Requests that `file` be opened read-only onto `fd`.
    pub fn file_read(&mut self, file: String, fd: i32)
        ensures
            final(self)@ == (ExecuteeView {
                redirect: old(self)@.redirect.push((RedirectKindView::Read(file@), fd as int)),
                ..old(self)@
            }),
    {
        self.redirect(RedirectKind::Read(file), fd);
    }

    /// Requests that `file` be opened write/create/append onto `fd`.
    pub fn file_append(&mut self, file: String, fd: i32)
        ensures
            final(self)@ == (ExecuteeView {
                redirect: old(self)@.redirect.push((RedirectKindView::Append(file@), fd as int)),
                ..old(self)@
            }),
    {
        self.redirect(RedirectKind::Append(file), fd);
    }

    /// Requests that `file` be opened read-write/create/truncate onto `fd`.
    pub fn file_rw(&mut self, file: String, fd: i32)
        ensures
            final(self)@ == (ExecuteeView {
                redirect: old(self)@.redirect.push((RedirectKindView::RW(file@), fd as int)),
                ..old(self)@
            }),
    {
        self.redirect(RedirectKind::RW(file), fd);
    }

    pub fn args(&self) -> (res: &Vec<String>)
        ensures
            res.deep_view() == self@.args,
    {
        &self.args
    }

    /// Replaces the variable snapshot.
    pub fn set_vars(&mut self, vars: Vec<(String, String)>)
        ensures
            final(self)@ == (ExecuteeView { vars: vars_seq_view(vars@), ..old(self)@ }),
    {
        self.vars = vars;
    }

    /// The variable snapshot formatted as `NAME=VALUE` entries, in order.
    pub fn env_strings(&self) -> (res: Vec<String>)
        ensures
            res.deep_view().len() == self@.vars.len(),
            forall|i: int|
                0 <= i < self@.vars.len() ==> #[trigger] res.deep_view()[i] == self@.vars[i].0
                    + "="@ + self@.vars[i].1,
    {
        let mut res: Vec<String> = Vec::new();
        let mut i: usize = 0;
        while i < self.vars.len()
            invariant
                i <= self.vars@.len(),
                res@.len() == i,
                forall|k: int|
                    0 <= k < i ==> #[trigger] res@[k]@ == self.vars@[k].0@ + "="@
                        + self.vars@[k].1@,
            decreases self.vars@.len() - i,
        {
            let mut entry = self.vars[i].0.clone();
            entry.append("=");
            entry.append(self.vars[i].1.as_str());
            res.push(entry);
            i = i + 1;
        }
        proof {
            assert forall|i2: int| 0 <= i2 < self@.vars.len() implies #[trigger] res.deep_view()[i2]
                == self@.vars[i2].0 + "="@ + self@.vars[i2].1 by {
                assert(res.deep_view()[i2] == res@[i2]@);
            }
        }
        res
    }
}

// ---------------------------------------------------------------------------
// Splitting a command's atoms into pipeline stages
// ---------------------------------------------------------------------------
/// One step of stage building: a word joins the current stage's arguments,
/// a pipe seals the stage and opens a new one, and each redirect atom
/// appends its request to the current stage.
pub open spec fn split_stages_rec(
    atoms: Seq<crate::parser::AtomView>,
    i: int,
    cur: ExecuteeView,
    done: Seq<ExecuteeView>,
) -> Seq<ExecuteeView>
    decreases atoms.len() - i,
{
    if i < 0 || i >= atoms.len() {
        done.push(cur)
    } else {
        match atoms[i].kind {
            AtomKindView::Word(w) => split_stages_rec(
                atoms,
                i + 1,
                ExecuteeView { args: cur.args.push(w), ..cur },
                done,
            ),
            AtomKindView::Pipe => split_stages_rec(atoms, i + 1, empty_executee(), done.push(cur)),
            AtomKindView::FdDuplicate(src, dst) => split_stages_rec(
                atoms,
                i + 1,
                ExecuteeView {
                    redirect: cur.redirect.push((RedirectKindView::Dup(src), dst)),
                    ..cur
                },
                done,
            ),
            AtomKindView::FdMove(src, dst) => split_stages_rec(
                atoms,
                i + 1,
                ExecuteeView {
                    redirect: cur.redirect.push((RedirectKindView::Mov(src), dst)),
                    ..cur
                },
                done,
            ),
            AtomKindView::FileRead(f, fd) => split_stages_rec(
                atoms,
                i + 1,
                ExecuteeView {
                    redirect: cur.redirect.push((RedirectKindView::Read(f), fd)),
                    ..cur
                },
                done,
            ),
            AtomKindView::FileWrite(f, fd) => split_stages_rec(
                atoms,
                i + 1,
                ExecuteeView {
                    redirect: cur.redirect.push((RedirectKindView::Write(f), fd)),
                    ..cur
                },
                done,
            ),
            AtomKindView::FileAppend(f, fd) => split_stages_rec(
                atoms,
                i + 1,
                ExecuteeView {
                    redirect: cur.redirect.push((RedirectKindView::Append(f), fd)),
                    ..cur
                },
                done,
            ),
            AtomKindView::FileReadWrite(f, fd) => split_stages_rec(
                atoms,
                i + 1,
                ExecuteeView {
                    redirect: cur.redirect.push((RedirectKindView::RW(f), fd)),
                    ..cur
                },
                done,
            ),
        }
    }
}

/// The pipeline stages written by a command's atoms, unclassified: one
/// stage per pipe-separated group, in order.
pub open spec fn split_stages_spec(atoms: Seq<crate::parser::AtomView>) -> Seq<ExecuteeView> {
    split_stages_rec(atoms, 0, empty_executee(), Seq::empty())
}

/// Splits a command's atoms at its pipes into unclassified stages.
pub fn split_stages(atoms: &Vec<Atom>) -> (res: Vec<Executee>)
    ensures
        res@.len() == split_stages_spec(atoms.deep_view()).len(),
        forall|i: int|
            0 <= i < res@.len() ==> #[trigger] res@[i]@ == split_stages_spec(atoms.deep_view())[i],
{
    let ghost av = atoms.deep_view();
    let mut done: Vec<Executee> = Vec::new();
    let mut cur = Executee::new();
    let mut i: usize = 0;
    proof {
        assert(done@.map_values(|e: Executee| e@) =~= Seq::<ExecuteeView>::empty());
    }
    while i < atoms.len()
        invariant
            i <= atoms@.len(),
            av == atoms.deep_view(),
            split_stages_spec(av) == split_stages_rec(
                av,
                i as int,
                cur@,
                done@.map_values(|e: Executee| e@),
            ),
        decreases atoms@.len() - i,
    {
        let ghost dv = done@.map_values(|e: Executee| e@);
        proof {
            assert(av[i as int] == atoms@[i as int]@);
        }
        match atoms[i].kind() {
            crate::parser::AtomKind::Word(w) => {
                cur.arg(w);
            },
            crate::parser::AtomKind::Pipe => {
                done.push(cur);
                cur = Executee::new();
                proof {
                    assert(done@.map_values(|e: Executee| e@) =~= dv.push(done@.last()@));
                }
            },
            crate::parser::AtomKind::FdDuplicate(src, dst) => {
                cur.fd_duplicate(src, dst);
            },
            crate::parser::AtomKind::FdMove(src, dst) => {
                cur.fd_move(src, dst);
            },
            crate::parser::AtomKind::FileRead(f, fd) => {
                cur.file_read(f, fd);
            },
            crate::parser::AtomKind::FileWrite(f, fd) => {
                cur.file_write(f, fd);
            },
            crate::parser::AtomKind::FileAppend(f, fd) => {
                cur.file_append(f, fd);
            },
            crate::parser::AtomKind::FileReadWrite(f, fd) => {
                cur.file_rw(f, fd);
            },
        }
        i = i + 1;
    }
    let ghost dv = done@.map_values(|e: Executee| e@);
    done.push(cur);
    proof {
        assert(done@.map_values(|e: Executee| e@) =~= dv.push(done@.last()@));
        assert forall|k: int| 0 <= k < done@.len() implies #[trigger] done@[k]@ == split_stages_spec(
            av,
        )[k] by {
            assert(done@.map_values(|e: Executee| e@)[k] == done@[k]@);
        }
    }
    done
}

} // verus!
