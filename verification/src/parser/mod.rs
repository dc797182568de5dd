//! Abstract syntax for one command line: atoms (words, pipes, redirects),
//! commands (execute or assign), and sequences of commands joined by
//! sequencing operators.

pub mod bash;

use vstd::prelude::*;

verus! {

/// One token inside a command. Redirection is a single tagged union:
/// duplicate an fd, move an fd (duplicate then close the source), or open
/// a file onto an fd with the stated mode.
#[derive(Debug)]
pub enum AtomKind {
    Word(String),
    Pipe,
    /// `FdDuplicate(src, dst)`: duplicate fd `src` onto fd `dst`.
    FdDuplicate(i32, i32),
    /// `FdMove(src, dst)`: duplicate fd `src` onto `dst`, then close `src`.
    FdMove(i32, i32),
    /// `FileRead(path, fd)`: open `path` read-only onto `fd`.
    FileRead(String, i32),
    /// `FileWrite(path, fd)`: open `path` write/create/truncate onto `fd`.
    FileWrite(String, i32),
    /// `FileAppend(path, fd)`: open `path` write/create/append onto `fd`.
    FileAppend(String, i32),
    /// `FileReadWrite(path, fd)`: open `path` read-write/create/truncate onto `fd`.
    FileReadWrite(String, i32),
}

/// Mathematical image of an `AtomKind`: strings become character sequences.
pub enum AtomKindView {
    Word(Seq<char>),
    Pipe,
    FdDuplicate(int, int),
    FdMove(int, int),
    FileRead(Seq<char>, int),
    FileWrite(Seq<char>, int),
    FileAppend(Seq<char>, int),
    FileReadWrite(Seq<char>, int),
}

impl View for AtomKind {
    type V = AtomKindView;

    open spec fn view(&self) -> AtomKindView {
        match self {
            AtomKind::Word(w) => AtomKindView::Word(w@),
            AtomKind::Pipe => AtomKindView::Pipe,
            AtomKind::FdDuplicate(src, dst) => AtomKindView::FdDuplicate(*src as int, *dst as int),
            AtomKind::FdMove(src, dst) => AtomKindView::FdMove(*src as int, *dst as int),
            AtomKind::FileRead(f, fd) => AtomKindView::FileRead(f@, *fd as int),
            AtomKind::FileWrite(f, fd) => AtomKindView::FileWrite(f@, *fd as int),
            AtomKind::FileAppend(f, fd) => AtomKindView::FileAppend(f@, *fd as int),
            AtomKind::FileReadWrite(f, fd) => AtomKindView::FileReadWrite(f@, *fd as int),
        }
    }
}

impl Clone for AtomKind {
    fn clone(&self) -> (res: AtomKind)
        ensures
            res@ == self@,
    {
        match self {
            AtomKind::Word(w) => AtomKind::Word(w.clone()),
            AtomKind::Pipe => AtomKind::Pipe,
            AtomKind::FdDuplicate(src, dst) => AtomKind::FdDuplicate(*src, *dst),
            AtomKind::FdMove(src, dst) => AtomKind::FdMove(*src, *dst),
            AtomKind::FileRead(f, fd) => AtomKind::FileRead(f.clone(), *fd),
            AtomKind::FileWrite(f, fd) => AtomKind::FileWrite(f.clone(), *fd),
            AtomKind::FileAppend(f, fd) => AtomKind::FileAppend(f.clone(), *fd),
            AtomKind::FileReadWrite(f, fd) => AtomKind::FileReadWrite(f.clone(), *fd),
        }
    }
}

/// An atom together with its source-text span (character offsets). The span
/// is informational only; execution never depends on it.
#[derive(Debug)]
pub struct Atom {
    pub kind: AtomKind,
    pub start: usize,
    pub end: usize,
}

pub struct AtomView {
    pub kind: AtomKindView,
    pub start: int,
    pub end: int,
}

impl View for Atom {
    type V = AtomView;

    open spec fn view(&self) -> AtomView {
        AtomView { kind: self.kind@, start: self.start as int, end: self.end as int }
    }
}

impl DeepView for Atom {
    type V = AtomView;

    open spec fn deep_view(&self) -> AtomView {
        self@
    }
}

impl Clone for Atom {
    fn clone(&self) -> (res: Atom)
        ensures
            res@ == self@,
    {
        Atom { kind: self.kind.clone(), start: self.start, end: self.end }
    }
}

impl Atom {
    pub fn new(kind: AtomKind, start: usize, end: usize) -> (res: Atom)
        ensures
            res@ == (AtomView { kind: kind@, start: start as int, end: end as int }),
    {
        Atom { kind, start, end }
    }

    pub fn kind(&self) -> (res: AtomKind)
        ensures
            res@ == self@.kind,
    {
        self.kind.clone()
    }
}

/// Whether a command runs something or assigns a shell variable.
#[derive(Clone, Copy, PartialEq, Eq, Structural, Debug)]
pub enum CommandKind {
    Execute,
    Assign,
}

/// One command: its kind and its ordered atoms. An `Assign` command's atoms
/// are exactly two words, name then value; the grammar enforces this.
#[derive(Debug)]
pub struct Command {
    pub kind: CommandKind,
    pub atoms: Vec<Atom>,
}

pub struct CommandView {
    pub kind: CommandKind,
    pub atoms: Seq<AtomView>,
}

impl View for Command {
    type V = CommandView;

    open spec fn view(&self) -> CommandView {
        CommandView { kind: self.kind, atoms: self.atoms.deep_view() }
    }
}

impl Clone for Command {
    fn clone(&self) -> (res: Command)
        ensures
            res@ == self@,
    {
        let atoms = self.atoms.clone();
        proof {
            assert forall|i: int| 0 <= i < atoms@.len() implies atoms@[i]@ == self.atoms@[i]@ by {
                assert(cloned::<Atom>(self.atoms[i], atoms[i]));
            }
            assert(atoms.deep_view() =~= self.atoms.deep_view());
        }
        Command { kind: self.kind, atoms }
    }
}

impl Command {
    pub fn new(kind: CommandKind, atoms: Vec<Atom>) -> (res: Command)
        ensures
            res@ == (CommandView { kind, atoms: atoms.deep_view() }),
    {
        Command { kind, atoms }
    }

    pub fn kind(&self) -> (res: CommandKind)
        ensures
            res == self@.kind,
    {
        self.kind
    }

    pub fn atoms(&self) -> (res: Vec<Atom>)
        ensures
            res.deep_view() == self@.atoms,
    {
        let atoms = self.atoms.clone();
        proof {
            assert forall|i: int| 0 <= i < atoms@.len() implies atoms@[i]@ == self.atoms@[i]@ by {
                assert(cloned::<Atom>(self.atoms[i], atoms[i]));
            }
            assert(atoms.deep_view() =~= self.atoms.deep_view());
        }
        atoms
    }
}

/// The connective that decides whether a command runs, given the previous
/// command's exit code: always, only on success, or only on failure.
#[derive(Clone, Copy, PartialEq, Eq, Structural, Debug)]
pub enum SequenceKind {
    /// `;` — always run.
    Always,
    /// `&&` — run only if the previous exit code was zero.
    And,
    /// `||` — run only if the previous exit code was nonzero.
    Or,
}

/// An ordered list of `(operator, command)` pairs. The operator attached to
/// entry `i` states when entry `i` runs relative to the previous entry's
/// exit code; entry 0 always runs.
#[derive(Debug)]
pub struct Sequence {
    pub commands: Vec<(SequenceKind, Command)>,
}

impl View for Sequence {
    type V = Seq<(SequenceKind, CommandView)>;

    open spec fn view(&self) -> Seq<(SequenceKind, CommandView)> {
        self.commands@.map_values(|p: (SequenceKind, Command)| (p.0, p.1@))
    }
}

impl Clone for Sequence {
    fn clone(&self) -> (res: Sequence)
        ensures
            res@ == self@,
    {
        let mut commands: Vec<(SequenceKind, Command)> = Vec::new();
        let mut i: usize = 0;
        while i < self.commands.len()
            invariant
                i <= self.commands.len(),
                commands@.len() == i,
                forall|k: int|
                    0 <= k < i ==> #[trigger] commands@[k].0 == self.commands@[k].0
                        && commands@[k].1@ == self.commands@[k].1@,
            decreases self.commands.len() - i,
        {
            let (kind, cmd) = &self.commands[i];
            commands.push((*kind, cmd.clone()));
            i = i + 1;
        }
        let res = Sequence { commands };
        proof {
            assert(res@ =~= self@);
        }
        res
    }
}

impl Sequence {
    pub fn new() -> (res: Sequence)
        ensures
            res@ == Seq::<(SequenceKind, CommandView)>::empty(),
    {
        Sequence { commands: Vec::new() }
    }

    pub fn add(&mut self, seq_kind: SequenceKind, command: Command)
        ensures
            final(self)@ == old(self)@.push((seq_kind, command@)),
    {
        self.commands.push((seq_kind, command));
        proof {
            assert(self@ =~= old(self)@.push((seq_kind, command@)));
        }
    }

    pub fn get(self) -> (res: Vec<(SequenceKind, Command)>)
        ensures
            res@.map_values(|p: (SequenceKind, Command)| (p.0, p.1@)) == self@,
    {
        self.commands
    }
}

} // verus!
