//! The command-line grammar and its parser.
//!
//! Grammar (informally):
//! `line := (command (separator command)*)? end-of-input`;
//! `separator := ";" | "&&" | "||"`;
//! `command := assign | execute`;
//! `assign := name "=" value` (one whitespace-free span, both sides nonempty);
//! `execute := (word | redirect)+ ("|" (word | redirect)+)*`.
//! Redirect operators are `>`, `>>`, `<`, `<>` followed by a file word, and
//! `>&`, `<&` followed by a digits word (with a trailing `-` for move
//! semantics), each optionally prefixed by a file-descriptor number written
//! immediately before the operator.
//!
//! Parsing is total: on any mismatch the parser returns an empty sequence,
//! because a line still being typed is routinely malformed.

use vstd::prelude::*;

use crate::parser::{Atom, AtomKind, AtomKindView, AtomView, Command, CommandKind, CommandView,
    Sequence, SequenceKind};
use crate::text::{chars_of_str, string_of_range};

verus! {

/// The redirect operators of the grammar.
#[derive(Clone, Copy, PartialEq, Eq, Structural, Debug)]
pub enum RedirOp {
    /// `>`: open for write, create, truncate.
    Great,
    /// `>>`: open for write, create, append.
    DGreat,
    /// `>&`: duplicate (or move) a descriptor, output direction.
    GreatAnd,
    /// `<`: open read-only.
    Less,
    /// `<&`: duplicate (or move) a descriptor, input direction.
    LessAnd,
    /// `<>`: open read-write, create, truncate.
    LessGreat,
}

/// Mathematical image of one lexical token.
pub enum TokView {
    Word { text: Seq<char>, start: int, end: int },
    Semi,
    AndAnd,
    OrOr,
    Pipe { start: int },
    Redir { op: RedirOp, fd: Option<int>, start: int, end: int },
}

/// One lexical token of a line, with character offsets into the line.
pub enum Tok {
    Word(String, usize, usize),
    Semi,
    AndAnd,
    OrOr,
    Pipe(usize),
    Redir(RedirOp, Option<i32>, usize, usize),
}

impl View for Tok {
    type V = TokView;

    open spec fn view(&self) -> TokView {
        match self {
            Tok::Word(text, start, end) => TokView::Word {
                text: text@,
                start: *start as int,
                end: *end as int,
            },
            Tok::Semi => TokView::Semi,
            Tok::AndAnd => TokView::AndAnd,
            Tok::OrOr => TokView::OrOr,
            Tok::Pipe(start) => TokView::Pipe { start: *start as int },
            Tok::Redir(op, fd, start, end) => TokView::Redir {
                op: *op,
                fd: match fd {
                    Some(v) => Some(*v as int),
                    None => None,
                },
                start: *start as int,
                end: *end as int,
            },
        }
    }
}

/// The view of a token list.
pub open spec fn toks_view(v: Seq<Tok>) -> Seq<TokView> {
    v.map_values(|t: Tok| t@)
}

// ---------------------------------------------------------------------------
// Character classes
// ---------------------------------------------------------------------------
/// Whitespace separates tokens.
pub open spec fn is_space(c: char) -> bool {
    c == ' ' || c == '\t'
}

/// Characters with lexical meaning of their own; a word never contains them.
pub open spec fn is_special(c: char) -> bool {
    c == ';' || c == '&' || c == '|' || c == '<' || c == '>'
}

pub open spec fn is_word_char(c: char) -> bool {
    !is_space(c) && !is_special(c)
}

pub open spec fn is_digit(c: char) -> bool {
    48 <= c as u32 <= 57
}

/// Numeric value of a digit character.
pub open spec fn digit_val(c: char) -> int {
    c as u32 - 48
}

/// End of the word starting at `i`: the first position at or after `i`
/// holding whitespace or a special character (or the end of the line).
pub open spec fn word_end(s: Seq<char>, i: int) -> int
    decreases s.len() - i,
{
    if i < 0 || i >= s.len() {
        i
    } else if is_word_char(s[i]) {
        word_end(s, i + 1)
    } else {
        i
    }
}

/// `word_end` never runs left of its start nor past the end of the line,
/// and moves right by at least one when it starts on a word character.
pub proof fn lemma_word_end(s: Seq<char>, i: int)
    requires
        0 <= i <= s.len(),
    ensures
        i <= word_end(s, i) <= s.len(),
        i < s.len() && is_word_char(s[i]) ==> i + 1 <= word_end(s, i),
        word_end(s, i) < s.len() ==> !is_word_char(s[word_end(s, i)]),
    decreases s.len() - i,
{
    if i < s.len() && is_word_char(s[i]) {
        lemma_word_end(s, i + 1);
    }
}

/// Every character of `w` is a decimal digit.
pub open spec fn all_digits(w: Seq<char>) -> bool {
    forall|k: int| 0 <= k < w.len() ==> is_digit(#[trigger] w[k])
}

/// The number written in decimal by `w`.
pub open spec fn digits_val(w: Seq<char>) -> int
    decreases w.len(),
{
    if w.len() == 0 {
        0
    } else {
        digits_val(w.drop_last()) * 10 + digit_val(w.last())
    }
}

// ---------------------------------------------------------------------------
// Lexing
// ---------------------------------------------------------------------------
pub open spec fn cons_tok(t: TokView, rest: Option<Seq<TokView>>) -> Option<Seq<TokView>> {
    match rest {
        Some(r) => Some(seq![t] + r),
        None => None,
    }
}

/// Tokens of `s` from position `i` on, or `None` on a lexical error
/// (a lone `&`, or a file-descriptor number too large for an `i32`).
pub open spec fn lex_from(s: Seq<char>, i: int) -> Option<Seq<TokView>>
    decreases s.len() - i, 1int,
    via lex_from_decreases
{
    if i < 0 || i >= s.len() {
        Some(Seq::empty())
    } else if is_space(s[i]) {
        lex_from(s, i + 1)
    } else if s[i] == ';' {
        cons_tok(TokView::Semi, lex_from(s, i + 1))
    } else if s[i] == '&' {
        if i + 1 < s.len() && s[i + 1] == '&' {
            cons_tok(TokView::AndAnd, lex_from(s, i + 2))
        } else {
            None
        }
    } else if s[i] == '|' {
        if i + 1 < s.len() && s[i + 1] == '|' {
            cons_tok(TokView::OrOr, lex_from(s, i + 2))
        } else {
            cons_tok(TokView::Pipe { start: i }, lex_from(s, i + 1))
        }
    } else if s[i] == '<' || s[i] == '>' {
        lex_redir(s, i, i, None)
    } else {
        let j = word_end(s, i);
        if j < s.len() && (s[j] == '<' || s[j] == '>') && all_digits(s.subrange(i, j)) {
            if digits_val(s.subrange(i, j)) <= i32::MAX {
                lex_redir(s, j, i, Some(digits_val(s.subrange(i, j))))
            } else {
                None
            }
        } else {
            cons_tok(TokView::Word { text: s.subrange(i, j), start: i, end: j }, lex_from(s, j))
        }
    }
}

#[via_fn]
proof fn lex_from_decreases(s: Seq<char>, i: int) {
    if 0 <= i < s.len() {
        lemma_word_end(s, i);
        if is_word_char(s[i]) {
            lemma_word_end(s, i + 1);
        }
    }
}

/// Lexes the redirect operator whose first character (`<` or `>`) stands at
/// `i`; `start` is the token's start (the descriptor prefix if one was
/// given) and `fd` that prefix's value.
pub open spec fn lex_redir(s: Seq<char>, i: int, start: int, fd: Option<int>) -> Option<
    Seq<TokView>,
>
    decreases s.len() - i, 0int,
{
    if !(0 <= i < s.len()) {
        None
    } else if s[i] == '>' {
        if i + 1 < s.len() && s[i + 1] == '>' {
            cons_tok(
                TokView::Redir { op: RedirOp::DGreat, fd, start, end: i + 2 },
                lex_from(s, i + 2),
            )
        } else if i + 1 < s.len() && s[i + 1] == '&' {
            cons_tok(
                TokView::Redir { op: RedirOp::GreatAnd, fd, start, end: i + 2 },
                lex_from(s, i + 2),
            )
        } else {
            cons_tok(
                TokView::Redir { op: RedirOp::Great, fd, start, end: i + 1 },
                lex_from(s, i + 1),
            )
        }
    } else if s[i] == '<' {
        if i + 1 < s.len() && s[i + 1] == '&' {
            cons_tok(
                TokView::Redir { op: RedirOp::LessAnd, fd, start, end: i + 2 },
                lex_from(s, i + 2),
            )
        } else if i + 1 < s.len() && s[i + 1] == '>' {
            cons_tok(
                TokView::Redir { op: RedirOp::LessGreat, fd, start, end: i + 2 },
                lex_from(s, i + 2),
            )
        } else {
            cons_tok(
                TokView::Redir { op: RedirOp::Less, fd, start, end: i + 1 },
                lex_from(s, i + 1),
            )
        }
    } else {
        None
    }
}

// ---------------------------------------------------------------------------
// Parsing tokens into commands
// ---------------------------------------------------------------------------
pub open spec fn is_sep(t: TokView) -> bool {
    t is Semi || t is AndAnd || t is OrOr
}

/// The sequencing operator written by a separator token.
pub open spec fn sep_kind(t: TokView) -> SequenceKind {
    match t {
        TokView::AndAnd => SequenceKind::And,
        TokView::OrOr => SequenceKind::Or,
        _ => SequenceKind::Always,
    }
}

/// First separator position at or after `i`, or the end of the token list.
pub open spec fn sep_pos(toks: Seq<TokView>, i: int) -> int
    decreases toks.len() - i,
{
    if i < 0 || i >= toks.len() {
        toks.len() as int
    } else if is_sep(toks[i]) {
        i
    } else {
        sep_pos(toks, i + 1)
    }
}

pub open spec fn fd_or(fd: Option<int>, default_fd: int) -> int {
    match fd {
        Some(v) => v,
        None => default_fd,
    }
}

/// The atom written by a descriptor-duplication target word: digits give
/// the source descriptor, a trailing `-` asks for move semantics.
pub open spec fn dup_atom(fd: Option<int>, text: Seq<char>, default_fd: int) -> Option<
    AtomKindView,
> {
    let mv = text.len() > 0 && text.last() == '-';
    let digits = if mv {
        text.drop_last()
    } else {
        text
    };
    if digits.len() > 0 && all_digits(digits) && digits_val(digits) <= i32::MAX {
        let src = digits_val(digits);
        let dst = fd_or(fd, default_fd);
        if mv {
            Some(AtomKindView::FdMove(src, dst))
        } else {
            Some(AtomKindView::FdDuplicate(src, dst))
        }
    } else {
        None
    }
}

/// The atom written by a redirect operator and its target word.
/// File-open forms default to descriptor 1 for output directions and 0 for
/// input directions.
pub open spec fn redirect_atom(op: RedirOp, fd: Option<int>, text: Seq<char>) -> Option<
    AtomKindView,
> {
    match op {
        RedirOp::Great => Some(AtomKindView::FileWrite(text, fd_or(fd, 1))),
        RedirOp::DGreat => Some(AtomKindView::FileAppend(text, fd_or(fd, 1))),
        RedirOp::Less => Some(AtomKindView::FileRead(text, fd_or(fd, 0))),
        RedirOp::LessGreat => Some(AtomKindView::FileReadWrite(text, fd_or(fd, 0))),
        RedirOp::GreatAnd => dup_atom(fd, text, 1),
        RedirOp::LessAnd => dup_atom(fd, text, 0),
    }
}

pub open spec fn cons_atom(a: AtomView, rest: Option<Seq<AtomView>>) -> Option<Seq<AtomView>> {
    match rest {
        Some(r) => Some(seq![a] + r),
        None => None,
    }
}

/// Atoms of the token range `[i, end)`, or `None` on a grammar mismatch
/// (a separator inside a command, or a redirect without a valid target).
pub open spec fn parse_atoms(toks: Seq<TokView>, i: int, end: int) -> Option<Seq<AtomView>>
    decreases end - i,
{
    if i < 0 || i >= end || end > toks.len() {
        Some(Seq::empty())
    } else {
        match toks[i] {
            TokView::Word { text, start, end: wend } => cons_atom(
                AtomView { kind: AtomKindView::Word(text), start, end: wend },
                parse_atoms(toks, i + 1, end),
            ),
            TokView::Pipe { start } => cons_atom(
                AtomView { kind: AtomKindView::Pipe, start, end: start + 1 },
                parse_atoms(toks, i + 1, end),
            ),
            TokView::Redir { op, fd, start, end: oend } => {
                if i + 1 < end && toks[i + 1] is Word {
                    let target = toks[i + 1];
                    match redirect_atom(op, fd, target->Word_text) {
                        Some(kind) => cons_atom(
                            AtomView { kind, start, end: target->Word_end },
                            parse_atoms(toks, i + 2, end),
                        ),
                        None => None,
                    }
                } else {
                    None
                }
            },
            _ => None,
        }
    }
}

/// Pipes split an execute command into stages; every stage needs at least
/// one atom, so a pipe may not stand first, last, or next to another pipe.
pub open spec fn stages_ok(atoms: Seq<AtomView>) -> bool {
    &&& atoms.len() > 0
    &&& !(atoms[0].kind is Pipe)
    &&& !(atoms[atoms.len() - 1].kind is Pipe)
    &&& forall|k: int|
        0 <= k < atoms.len() - 1 ==> !((#[trigger] atoms[k].kind) is Pipe
            && atoms[k + 1].kind is Pipe)
}

/// First `=` in `w`, or `w.len()` if there is none.
pub open spec fn eq_pos(w: Seq<char>, i: int) -> int
    decreases w.len() - i,
{
    if i < 0 || i >= w.len() {
        w.len() as int
    } else if w[i] == '=' {
        i
    } else {
        eq_pos(w, i + 1)
    }
}

/// A word writes an assignment when its first `=` has a nonempty name
/// before it and a nonempty value after it.
pub open spec fn is_assign_word(w: Seq<char>) -> bool {
    0 < eq_pos(w, 0) < w.len() - 1
}

/// The assign command written by the single word of a command, split at its
/// first `=` into a name atom and a value atom.
pub open spec fn assign_command(text: Seq<char>, start: int, end: int) -> CommandView {
    let k = eq_pos(text, 0);
    CommandView {
        kind: CommandKind::Assign,
        atoms: seq![
            AtomView {
                kind: AtomKindView::Word(text.subrange(0, k)),
                start,
                end: start + k,
            },
            AtomView {
                kind: AtomKindView::Word(text.subrange(k + 1, text.len() as int)),
                start: start + k + 1,
                end,
            },
        ],
    }
}

/// The command written by the token range `[i, end)`.
pub open spec fn parse_command(toks: Seq<TokView>, i: int, end: int) -> Option<CommandView> {
    if end - i == 1 && (toks[i] matches TokView::Word { text, start, end: wend }
        && is_assign_word(text)) {
        Some(assign_command(toks[i]->Word_text, toks[i]->Word_start, toks[i]->Word_end))
    } else {
        match parse_atoms(toks, i, end) {
            Some(atoms) => if stages_ok(atoms) {
                Some(CommandView { kind: CommandKind::Execute, atoms })
            } else {
                None
            },
            None => None,
        }
    }
}

pub open spec fn cons_cmd(
    c: (SequenceKind, CommandView),
    rest: Option<Seq<(SequenceKind, CommandView)>>,
) -> Option<Seq<(SequenceKind, CommandView)>> {
    match rest {
        Some(r) => Some(seq![c] + r),
        None => None,
    }
}

/// Commands of the token list from `i` on; `op` is the operator carried by
/// the separator just before `i` (`Always` for the first command).
pub open spec fn parse_cmds(toks: Seq<TokView>, i: int, op: SequenceKind) -> Option<
    Seq<(SequenceKind, CommandView)>,
>
    decreases toks.len() - i,
{
    if i < 0 {
        None
    } else {
        let k = sep_pos(toks, i);
        if k <= i {
            None  // an empty command: the line starts or ends with a separator, or repeats one
        } else {
            match parse_command(toks, i, k) {
                None => None,
                Some(cmd) => {
                    if k >= toks.len() {
                        Some(seq![(op, cmd)])
                    } else {
                        cons_cmd((op, cmd), parse_cmds(toks, k + 1, sep_kind(toks[k])))
                    }
                },
            }
        }
    }
}

pub open spec fn parse_toks(toks: Seq<TokView>) -> Option<Seq<(SequenceKind, CommandView)>> {
    if toks.len() == 0 {
        Some(Seq::empty())
    } else {
        parse_cmds(toks, 0, SequenceKind::Always)
    }
}

/// What parsing a whole line yields: its commands, or the empty sequence
/// when the line does not fit the grammar.
pub open spec fn parse_spec(s: Seq<char>) -> Seq<(SequenceKind, CommandView)> {
    match lex_from(s, 0) {
        None => Seq::empty(),
        Some(toks) => match parse_toks(toks) {
            None => Seq::empty(),
            Some(cmds) => cmds,
        },
    }
}

// ---------------------------------------------------------------------------
// Arithmetic facts about digit strings
// ---------------------------------------------------------------------------
pub proof fn lemma_digits_val_nonneg(w: Seq<char>)
    requires
        all_digits(w),
    ensures
        digits_val(w) >= 0,
    decreases w.len(),
{
    if w.len() > 0 {
        assert(all_digits(w.drop_last()));
        lemma_digits_val_nonneg(w.drop_last());
    }
}

/// Appending digits never shrinks the number a digit string writes.
pub proof fn lemma_digits_val_prefix(w: Seq<char>, m: int)
    requires
        all_digits(w),
        0 <= m <= w.len(),
    ensures
        digits_val(w.subrange(0, m)) <= digits_val(w),
    decreases w.len(),
{
    if m == w.len() {
        assert(w.subrange(0, m) =~= w);
    } else {
        assert(all_digits(w.drop_last()));
        assert(w.drop_last().subrange(0, m) =~= w.subrange(0, m));
        lemma_digits_val_prefix(w.drop_last(), m);
        lemma_digits_val_nonneg(w.drop_last());
    }
}

// ---------------------------------------------------------------------------
// Well-formed tokens: spans are consistent, so span arithmetic cannot
// overflow when re-done on machine integers.
// ---------------------------------------------------------------------------
pub open spec fn tok_wf(t: TokView) -> bool {
    match t {
        TokView::Word { text, start, end } => 0 <= start && start + text.len() == end,
        TokView::Pipe { start } => 0 <= start && start + 1 <= usize::MAX,
        _ => true,
    }
}

pub open spec fn toks_wf(toks: Seq<TokView>) -> bool {
    forall|k: int| 0 <= k < toks.len() ==> tok_wf(#[trigger] toks[k])
}

/// Every token the lexer yields has a consistent span.
pub proof fn lemma_lex_wf(s: Seq<char>, i: int)
    requires
        0 <= i <= s.len() <= usize::MAX,
        lex_from(s, i) is Some,
    ensures
        toks_wf(lex_from(s, i)->Some_0),
    decreases s.len() - i, 1int,
{
    if i < s.len() {
        if is_space(s[i]) {
            lemma_lex_wf(s, i + 1);
        } else if s[i] == ';' {
            lemma_lex_wf(s, i + 1);
            assert(toks_wf(lex_from(s, i)->Some_0));
        } else if s[i] == '&' {
            lemma_lex_wf(s, i + 2);
        } else if s[i] == '|' {
            if i + 1 < s.len() && s[i + 1] == '|' {
                lemma_lex_wf(s, i + 2);
            } else {
                lemma_lex_wf(s, i + 1);
            }
        } else if s[i] == '<' || s[i] == '>' {
            lemma_lex_redir_wf(s, i, i, None);
        } else {
            lemma_word_end(s, i);
            let j = word_end(s, i);
            if j < s.len() && (s[j] == '<' || s[j] == '>') && all_digits(s.subrange(i, j)) {
                lemma_lex_redir_wf(s, j, i, Some(digits_val(s.subrange(i, j))));
            } else {
                lemma_lex_wf(s, j);
                lemma_word_end_span(s, i);
            }
        }
    }
}

pub proof fn lemma_lex_redir_wf(s: Seq<char>, i: int, start: int, fd: Option<int>)
    requires
        0 <= i < s.len(),
        s.len() <= usize::MAX,
        lex_redir(s, i, start, fd) is Some,
    ensures
        toks_wf(lex_redir(s, i, start, fd)->Some_0),
    decreases s.len() - i, 0int,
{
    if s[i] == '>' {
        if i + 1 < s.len() && s[i + 1] == '>' {
            lemma_lex_wf(s, i + 2);
        } else if i + 1 < s.len() && s[i + 1] == '&' {
            lemma_lex_wf(s, i + 2);
        } else {
            lemma_lex_wf(s, i + 1);
        }
    } else if s[i] == '<' {
        if i + 1 < s.len() && s[i + 1] == '&' {
            lemma_lex_wf(s, i + 2);
        } else if i + 1 < s.len() && s[i + 1] == '>' {
            lemma_lex_wf(s, i + 2);
        } else {
            lemma_lex_wf(s, i + 1);
        }
    }
}

/// The word token's span length equals its text length.
proof fn lemma_word_end_span(s: Seq<char>, i: int)
    requires
        0 <= i <= s.len(),
    ensures
        i + s.subrange(i, word_end(s, i)).len() == word_end(s, i),
{
    lemma_word_end(s, i);
}

// ---------------------------------------------------------------------------
// Executable lexer
// ---------------------------------------------------------------------------
fn word_end_exec(s: &Vec<char>, i: usize) -> (j: usize)
    requires
        i <= s@.len(),
    ensures
        j == word_end(s@, i as int),
        i <= j <= s@.len(),
{
    let ghost gs = s@;
    let mut j = i;
    while j < s.len() && !is_space_exec(s[j]) && !is_special_exec(s[j])
        invariant
            i <= j <= s@.len(),
            s@ == gs,
            word_end(gs, i as int) == word_end(gs, j as int),
        decreases s@.len() - j,
    {
        proof {
            assert(word_end(gs, j as int) == word_end(gs, j + 1));
        }
        j = j + 1;
    }
    j
}

fn is_space_exec(c: char) -> (r: bool)
    ensures
        r == is_space(c),
{
    c == ' ' || c == '\t'
}

fn is_special_exec(c: char) -> (r: bool)
    ensures
        r == is_special(c),
{
    c == ';' || c == '&' || c == '|' || c == '<' || c == '>'
}

fn is_digit_exec(c: char) -> (r: bool)
    ensures
        r == is_digit(c),
{
    let u = c as u32;
    48 <= u && u <= 57
}

fn all_digits_range(s: &Vec<char>, i: usize, j: usize) -> (r: bool)
    requires
        i <= j <= s@.len(),
    ensures
        r == all_digits(s@.subrange(i as int, j as int)),
{
    let ghost w = s@.subrange(i as int, j as int);
    let mut k = i;
    while k < j
        invariant
            i <= k <= j <= s@.len(),
            w == s@.subrange(i as int, j as int),
            forall|m: int| 0 <= m < k - i ==> is_digit(#[trigger] w[m]),
        decreases j - k,
    {
        if !is_digit_exec(s[k]) {
            proof {
                assert(w[k - i] == s@[k as int]);
            }
            return false;
        }
        proof {
            assert(w[k - i] == s@[k as int]);
        }
        k = k + 1;
    }
    true
}

/// The number a digit string writes, or `None` when it does not fit an
/// `i32`.
fn digits_value(s: &Vec<char>, i: usize, j: usize) -> (r: Option<i32>)
    requires
        i <= j <= s@.len(),
        all_digits(s@.subrange(i as int, j as int)),
    ensures
        match r {
            Some(v) => v == digits_val(s@.subrange(i as int, j as int)) && v <= i32::MAX,
            None => digits_val(s@.subrange(i as int, j as int)) > i32::MAX,
        },
{
    let ghost w = s@.subrange(i as int, j as int);
    let mut acc: i32 = 0;
    let mut k = i;
    while k < j
        invariant
            i <= k <= j <= s@.len(),
            w == s@.subrange(i as int, j as int),
            all_digits(w),
            0 <= acc,
            acc == digits_val(s@.subrange(i as int, k as int)),
        decreases j - k,
    {
        let ghost wk = s@.subrange(i as int, k as int);
        let ghost wk1 = s@.subrange(i as int, k + 1);
        proof {
            assert(wk1.drop_last() =~= wk);
            assert(wk1.last() == s@[k as int]);
            assert(w[k - i] == s@[k as int]);
            assert(is_digit(s@[k as int]));
        }
        let d = (s[k] as u32) - 48;
        if acc > (i32::MAX - d as i32) / 10 {
            proof {
                assert(digits_val(wk1) == digits_val(wk) * 10 + digit_val(s@[k as int]));
                assert(digits_val(wk1) > i32::MAX);
                assert(wk1 =~= w.subrange(0, k + 1 - i));
                lemma_digits_val_prefix(w, k + 1 - i);
            }
            return None;
        }
        acc = acc * 10 + d as i32;
        proof {
            assert(acc == digits_val(wk1));
        }
        k = k + 1;
    }
    proof {
        assert(w =~= s@.subrange(i as int, j as int));
    }
    Some(acc)
}

proof fn lemma_toks_cons(v: Seq<Tok>, t: Tok)
    ensures
        toks_view(v.insert(0, t)) =~= seq![t@] + toks_view(v),
{
}

/// Lexes `s` from position `i` to its end.
fn lex_part(s: &Vec<char>, i: usize) -> (r: Option<Vec<Tok>>)
    requires
        i <= s@.len(),
    ensures
        r is Some <==> lex_from(s@, i as int) is Some,
        r matches Some(v) ==> lex_from(s@, i as int) == Some(toks_view(v@)),
    decreases s@.len() - i, 1int,
{
    if i >= s.len() {
        proof {
            assert(toks_view(Seq::<Tok>::empty()) =~= Seq::<TokView>::empty());
        }
        return Some(Vec::new());
    }
    let c = s[i];
    if is_space_exec(c) {
        lex_part(s, i + 1)
    } else if c == ';' {
        lex_cons(Tok::Semi, lex_part(s, i + 1))
    } else if c == '&' {
        if i + 1 < s.len() && s[i + 1] == '&' {
            lex_cons(Tok::AndAnd, lex_part(s, i + 2))
        } else {
            None
        }
    } else if c == '|' {
        if i + 1 < s.len() && s[i + 1] == '|' {
            lex_cons(Tok::OrOr, lex_part(s, i + 2))
        } else {
            lex_cons(Tok::Pipe(i), lex_part(s, i + 1))
        }
    } else if c == '<' || c == '>' {
        lex_redir_part(s, i, i, None)
    } else {
        let j = word_end_exec(s, i);
        proof {
            lemma_word_end(s@, i as int);
            if is_word_char(s@[i as int]) {
                lemma_word_end(s@, i + 1);
            }
        }
        if j < s.len() && (s[j] == '<' || s[j] == '>') && all_digits_range(s, i, j) {
            match digits_value(s, i, j) {
                Some(v) => lex_redir_part(s, j, i, Some(v)),
                None => None,
            }
        } else {
            let text = string_of_range(s, i, j);
            lex_cons(Tok::Word(text, i, j), lex_part(s, j))
        }
    }
}

/// Prepends a freshly lexed token to the tokens of the rest of the line.
fn lex_cons(t: Tok, rest: Option<Vec<Tok>>) -> (r: Option<Vec<Tok>>)
    ensures
        r is Some <==> rest is Some,
        r matches Some(v) ==> (rest matches Some(v0) && toks_view(v@) == seq![t@] + toks_view(
            v0@,
        )),
{
    match rest {
        Some(mut v) => {
            proof {
                lemma_toks_cons(v@, t);
            }
            v.insert(0, t);
            Some(v)
        },
        None => None,
    }
}

fn lex_redir_part(s: &Vec<char>, i: usize, start: usize, fd: Option<i32>) -> (r: Option<Vec<Tok>>)
    requires
        i < s@.len(),
        s@[i as int] == '<' || s@[i as int] == '>',
    ensures
        r is Some <==> lex_redir(s@, i as int, start as int, fd_view(fd)) is Some,
        r matches Some(v) ==> lex_redir(s@, i as int, start as int, fd_view(fd)) == Some(
            toks_view(v@),
        ),
    decreases s@.len() - i, 0int,
{
    let n = s.len();
    let c = s[i];
    if c == '>' {
        if i + 1 < n && s[i + 1] == '>' {
            lex_cons(Tok::Redir(RedirOp::DGreat, fd, start, i + 2), lex_part(s, i + 2))
        } else if i + 1 < n && s[i + 1] == '&' {
            lex_cons(Tok::Redir(RedirOp::GreatAnd, fd, start, i + 2), lex_part(s, i + 2))
        } else {
            lex_cons(Tok::Redir(RedirOp::Great, fd, start, i + 1), lex_part(s, i + 1))
        }
    } else {
        if i + 1 < n && s[i + 1] == '&' {
            lex_cons(Tok::Redir(RedirOp::LessAnd, fd, start, i + 2), lex_part(s, i + 2))
        } else if i + 1 < n && s[i + 1] == '>' {
            lex_cons(Tok::Redir(RedirOp::LessGreat, fd, start, i + 2), lex_part(s, i + 2))
        } else {
            lex_cons(Tok::Redir(RedirOp::Less, fd, start, i + 1), lex_part(s, i + 1))
        }
    }
}

/// The view of an optional machine-level file descriptor.
pub open spec fn fd_view(fd: Option<i32>) -> Option<int> {
    match fd {
        Some(v) => Some(v as int),
        None => None,
    }
}

// ---------------------------------------------------------------------------
// Plain-word lines
// ---------------------------------------------------------------------------
/// A line of words and whitespace only: no operator characters and no `=`.
pub open spec fn plain_words(s: Seq<char>) -> bool {
    forall|i: int|
        0 <= i < s.len() ==> is_space(#[trigger] s[i]) || (is_word_char(s[i]) && s[i] != '=')
}

/// On a plain-word line, a word ends exactly where the whitespace-free run
/// ends.
proof fn lemma_word_end_run_end(s: Seq<char>, i: int)
    requires
        plain_words(s),
        0 <= i <= s.len(),
    ensures
        word_end(s, i) == crate::line::run_end(s, i),
    decreases s.len() - i,
{
    if i < s.len() && is_word_char(s[i]) {
        lemma_word_end_run_end(s, i + 1);
    }
}

/// On a plain-word line the lexer succeeds and yields one `Word` token per
/// whitespace-free run, in order, with the run's text.
proof fn lemma_lex_plain(s: Seq<char>, i: int)
    requires
        plain_words(s),
        0 <= i <= s.len(),
    ensures
        lex_from(s, i) is Some,
        lex_from(s, i)->Some_0.len() == crate::line::ws_split_from(s, i).len(),
        forall|k: int|
            0 <= k < lex_from(s, i)->Some_0.len() ==> ((#[trigger] lex_from(s, i)->Some_0[k])
                matches TokView::Word { text, start, end } && text == crate::line::ws_split_from(
                s,
                i,
            )[k]),
    decreases s.len() - i,
{
    if i < s.len() {
        if is_space(s[i]) {
            lemma_lex_plain(s, i + 1);
        } else {
            lemma_word_end(s, i);
            lemma_word_end_run_end(s, i);
            let j = word_end(s, i);
            assert(j < s.len() ==> is_space(s[j]));
            lemma_lex_plain(s, j);
            let toks = lex_from(s, i)->Some_0;
            let rest = lex_from(s, j)->Some_0;
            assert(toks == seq![
                TokView::Word { text: s.subrange(i, j), start: i, end: j },
            ] + rest);
            assert forall|k: int| 0 <= k < toks.len() implies ((#[trigger] toks[k])
                matches TokView::Word { text, start, end } && text == crate::line::ws_split_from(
                s,
                i,
            )[k]) by {
                if k > 0 {
                    assert(toks[k] == rest[k - 1]);
                }
            }
        }
    } else {
        assert(crate::line::ws_split_from(s, i) =~= Seq::<Seq<char>>::empty());
    }
}

/// A line holding a whitespace-free character splits into at least one
/// word.
proof fn lemma_ws_split_nonempty(s: Seq<char>, i: int)
    requires
        0 <= i <= s.len(),
        exists|k: int| i <= k < s.len() && !is_space(#[trigger] s[k]),
    ensures
        crate::line::ws_split_from(s, i).len() > 0,
    decreases s.len() - i,
{
    crate::line::lemma_run_end(s, i);
    if is_space(s[i]) {
        let w = choose|k: int| i <= k < s.len() && !is_space(#[trigger] s[k]);
        assert(i + 1 <= w < s.len() && !is_space(s[w]));
        lemma_ws_split_nonempty(s, i + 1);
    }
}

/// With no separator among the tokens, the first separator position is the
/// end.
proof fn lemma_sep_pos_none(toks: Seq<TokView>, i: int)
    requires
        0 <= i <= toks.len(),
        forall|k: int| 0 <= k < toks.len() ==> !is_sep(#[trigger] toks[k]),
    ensures
        sep_pos(toks, i) == toks.len(),
    decreases toks.len() - i,
{
    if i < toks.len() {
        lemma_sep_pos_none(toks, i + 1);
    }
}

/// Word tokens alone parse into word atoms, one per token, in order.
proof fn lemma_parse_atoms_words(toks: Seq<TokView>, i: int, end: int)
    requires
        0 <= i <= end <= toks.len(),
        forall|k: int| 0 <= k < toks.len() ==> (#[trigger] toks[k]) is Word,
    ensures
        parse_atoms(toks, i, end) is Some,
        parse_atoms(toks, i, end)->Some_0.len() == end - i,
        forall|k: int|
            0 <= k < end - i ==> (#[trigger] parse_atoms(toks, i, end)->Some_0[k]).kind
                == AtomKindView::Word(toks[i + k]->Word_text),
    decreases end - i,
{
    if i < end {
        lemma_parse_atoms_words(toks, i + 1, end);
        let atoms = parse_atoms(toks, i, end)->Some_0;
        let rest = parse_atoms(toks, i + 1, end)->Some_0;
        assert forall|k: int| 0 <= k < end - i implies (#[trigger] atoms[k]).kind
            == AtomKindView::Word(toks[i + k]->Word_text) by {
            if k > 0 {
                assert(atoms[k] == rest[k - 1]);
            }
        }
    }
}

/// A word whose characters are plain never writes an assignment.
proof fn lemma_no_eq(w: Seq<char>, i: int)
    requires
        0 <= i <= w.len(),
        forall|k: int| 0 <= k < w.len() ==> w[k] != '=',
    ensures
        eq_pos(w, i) == w.len(),
    decreases w.len() - i,
{
    if i < w.len() {
        lemma_no_eq(w, i + 1);
    }
}

/// A line of plain whitespace-separated words — no operators, no `=`, at
/// least one word — parses to exactly one always-run execute command whose
/// atoms are the whitespace-split words, in order.
pub proof fn lemma_parse_plain_words(s: Seq<char>)
    requires
        plain_words(s),
        exists|i: int| 0 <= i < s.len() && !is_space(#[trigger] s[i]),
    ensures
        parse_spec(s).len() == 1,
        parse_spec(s)[0].0 == SequenceKind::Always,
        parse_spec(s)[0].1.kind == CommandKind::Execute,
        parse_spec(s)[0].1.atoms.len() == crate::line::ws_split(s).len(),
        forall|k: int|
            0 <= k < parse_spec(s)[0].1.atoms.len() ==> (#[trigger] parse_spec(
                s,
            )[0].1.atoms[k]).kind == AtomKindView::Word(crate::line::ws_split(s)[k]),
{
    lemma_lex_plain(s, 0);
    let toks = lex_from(s, 0)->Some_0;
    let words = crate::line::ws_split(s);
    let w0 = choose|i: int| 0 <= i < s.len() && !is_space(#[trigger] s[i]);
    lemma_ws_split_nonempty(s, 0);
    assert(toks.len() > 0);
    assert forall|k: int| 0 <= k < toks.len() implies !is_sep(#[trigger] toks[k]) by {
        assert(toks[k] is Word);
    }
    lemma_sep_pos_none(toks, 0);
    lemma_parse_atoms_words(toks, 0, toks.len() as int);
    let atoms = parse_atoms(toks, 0, toks.len() as int)->Some_0;
    // No word can be an assignment: its characters come from `s`.
    if toks.len() == 1 {
        let text = toks[0]->Word_text;
        assert(text == words[0]);
        assert forall|k: int| 0 <= k < text.len() implies text[k] != '=' by {
            lemma_ws_words_chars(s, 0, 0, k);
        }
        lemma_no_eq(text, 0);
        assert(!is_assign_word(text));
    }
    // Every stage rule holds: there is an atom and none is a pipe.
    assert(atoms.len() == toks.len());
    assert forall|k: int| 0 <= k < atoms.len() implies !((#[trigger] atoms[k]).kind is Pipe) by {
        assert(atoms[k].kind == AtomKindView::Word(toks[k]->Word_text));
    }
    assert(stages_ok(atoms));
    assert(parse_command(toks, 0, toks.len() as int) == Some(
        CommandView { kind: CommandKind::Execute, atoms },
    ));
    assert(parse_cmds(toks, 0, SequenceKind::Always) == Some(
        seq![(SequenceKind::Always, CommandView { kind: CommandKind::Execute, atoms })],
    ));
    assert(parse_spec(s)[0].1.atoms == atoms);
    assert forall|k: int| 0 <= k < atoms.len() implies (#[trigger] parse_spec(s)[0].1.atoms[k]).kind
        == AtomKindView::Word(words[k]) by {
        assert(atoms[k].kind == AtomKindView::Word(toks[k]->Word_text));
        assert(toks[k]->Word_text == words[k]);
    }
}

/// Each character of each whitespace-split word is a character of the
/// line (words are subranges of the line).
proof fn lemma_ws_words_chars(s: Seq<char>, i: int, w: int, k: int)
    requires
        0 <= i <= s.len(),
        0 <= w < crate::line::ws_split_from(s, i).len(),
        0 <= k < crate::line::ws_split_from(s, i)[w].len(),
    ensures
        exists|m: int|
            0 <= m < s.len() && crate::line::ws_split_from(s, i)[w][k] == #[trigger] s[m],
    decreases s.len() - i,
{
    crate::line::lemma_run_end(s, i);
    if i < s.len() {
        if is_space(s[i]) {
            lemma_ws_words_chars(s, i + 1, w, k);
        } else {
            let j = crate::line::run_end(s, i);
            if w == 0 {
                assert(crate::line::ws_split_from(s, i)[0] == s.subrange(i, j));
                assert(crate::line::ws_split_from(s, i)[0][k] == s[i + k]);
            } else {
                lemma_ws_words_chars(s, j, w - 1, k);
                assert(crate::line::ws_split_from(s, i)[w] == crate::line::ws_split_from(s, j)[w
                    - 1]);
            }
        }
    }
}

/// A line that does not fit the grammar parses to the empty sequence:
/// a lexical error or a command-structure mismatch yields no commands
/// rather than a failure.
pub proof fn lemma_parse_mismatch_empty(s: Seq<char>)
    requires
        lex_from(s, 0) is None || parse_toks(lex_from(s, 0)->Some_0) is None,
    ensures
        parse_spec(s).len() == 0,
{
}

// ---------------------------------------------------------------------------
// Shape of parsed commands
// ---------------------------------------------------------------------------
/// An assign command carries exactly two word atoms: name and value.
pub open spec fn cmd_assign_wf(c: CommandView) -> bool {
    c.kind is Assign ==> c.atoms.len() == 2 && c.atoms[0].kind is Word && c.atoms[1].kind is Word
}

proof fn lemma_parse_cmds_wf(toks: Seq<TokView>, i: int, op: SequenceKind)
    requires
        parse_cmds(toks, i, op) is Some,
    ensures
        forall|k: int|
            0 <= k < parse_cmds(toks, i, op)->Some_0.len() ==> cmd_assign_wf(
                (#[trigger] parse_cmds(toks, i, op)->Some_0[k]).1,
            ),
    decreases toks.len() - i,
{
    let sp = sep_pos(toks, i);
    if i >= 0 && sp > i {
        if parse_cmds(toks, i, op) is Some && sp < toks.len() {
            lemma_parse_cmds_wf(toks, sp + 1, sep_kind(toks[sp]));
        }
    }
}

/// Every command the grammar yields has a well-shaped atom list: an assign
/// command is exactly a name word and a value word.
pub proof fn lemma_parse_spec_wf(s: Seq<char>)
    ensures
        forall|k: int|
            0 <= k < parse_spec(s).len() ==> cmd_assign_wf((#[trigger] parse_spec(s)[k]).1),
{
    match lex_from(s, 0) {
        Some(toks) => {
            if toks.len() > 0 && parse_cmds(toks, 0, SequenceKind::Always) is Some {
                lemma_parse_cmds_wf(toks, 0, SequenceKind::Always);
            }
        },
        None => {},
    }
}

// ---------------------------------------------------------------------------
// Executable parser
// ---------------------------------------------------------------------------
/// The view of a built command list.
pub open spec fn cmds_view(v: Seq<(SequenceKind, Command)>) -> Seq<(SequenceKind, CommandView)> {
    v.map_values(|p: (SequenceKind, Command)| (p.0, p.1@))
}

fn is_sep_exec(t: &Tok) -> (r: bool)
    ensures
        r == is_sep(t@),
{
    match t {
        Tok::Semi => true,
        Tok::AndAnd => true,
        Tok::OrOr => true,
        _ => false,
    }
}

fn sep_kind_exec(t: &Tok) -> (r: SequenceKind)
    ensures
        r == sep_kind(t@),
{
    match t {
        Tok::AndAnd => SequenceKind::And,
        Tok::OrOr => SequenceKind::Or,
        _ => SequenceKind::Always,
    }
}

fn sep_pos_exec(toks: &Vec<Tok>, i: usize) -> (k: usize)
    requires
        i <= toks@.len(),
    ensures
        k as int == sep_pos(toks_view(toks@), i as int),
        i <= k <= toks@.len(),
{
    let ghost tv = toks_view(toks@);
    let mut k = i;
    while k < toks.len() && !is_sep_exec(&toks[k])
        invariant
            i <= k <= toks@.len(),
            tv == toks_view(toks@),
            sep_pos(tv, i as int) == sep_pos(tv, k as int),
        decreases toks@.len() - k,
    {
        proof {
            assert(tv[k as int] == toks@[k as int]@);
            assert(sep_pos(tv, k as int) == sep_pos(tv, k + 1));
        }
        k = k + 1;
    }
    proof {
        if k < toks@.len() {
            assert(tv[k as int] == toks@[k as int]@);
        }
    }
    k
}

fn eq_pos_exec(chars: &Vec<char>) -> (k: usize)
    ensures
        k as int == eq_pos(chars@, 0),
        k <= chars@.len(),
{
    let mut k: usize = 0;
    while k < chars.len() && chars[k] != '='
        invariant
            k <= chars@.len(),
            eq_pos(chars@, 0) == eq_pos(chars@, k as int),
        decreases chars@.len() - k,
    {
        proof {
            assert(eq_pos(chars@, k as int) == eq_pos(chars@, k + 1));
        }
        k = k + 1;
    }
    k
}

fn fd_or_exec(fd: Option<i32>, default_fd: i32) -> (r: i32)
    ensures
        r as int == fd_or(fd_view(fd), default_fd as int),
{
    match fd {
        Some(v) => v,
        None => default_fd,
    }
}

/// The atom of a `>&`/`<&` target word, if the word is digits with an
/// optional trailing `-`.
fn dup_atom_exec(fd: Option<i32>, text: &String, default_fd: i32) -> (r: Option<AtomKind>)
    ensures
        r is Some <==> dup_atom(fd_view(fd), text@, default_fd as int) is Some,
        r matches Some(kind) ==> dup_atom(fd_view(fd), text@, default_fd as int) == Some(kind@),
{
    let chars = chars_of_str(text.as_str());
    let n = chars.len();
    let mv = n > 0 && chars[n - 1] == '-';
    let m = if mv {
        n - 1
    } else {
        n
    };
    proof {
        if mv {
            assert(chars@.subrange(0, m as int) =~= text@.drop_last());
        } else {
            assert(chars@.subrange(0, m as int) =~= text@);
        }
    }
    if m > 0 && all_digits_range(&chars, 0, m) {
        match digits_value(&chars, 0, m) {
            Some(v) => {
                let dst = fd_or_exec(fd, default_fd);
                if mv {
                    Some(AtomKind::FdMove(v, dst))
                } else {
                    Some(AtomKind::FdDuplicate(v, dst))
                }
            },
            None => None,
        }
    } else {
        None
    }
}

/// The atom of a redirect operator applied to its target word.
fn redirect_atom_exec(op: RedirOp, fd: Option<i32>, text: &String) -> (r: Option<AtomKind>)
    ensures
        r is Some <==> redirect_atom(op, fd_view(fd), text@) is Some,
        r matches Some(kind) ==> redirect_atom(op, fd_view(fd), text@) == Some(kind@),
{
    match op {
        RedirOp::Great => Some(AtomKind::FileWrite(text.clone(), fd_or_exec(fd, 1))),
        RedirOp::DGreat => Some(AtomKind::FileAppend(text.clone(), fd_or_exec(fd, 1))),
        RedirOp::Less => Some(AtomKind::FileRead(text.clone(), fd_or_exec(fd, 0))),
        RedirOp::LessGreat => Some(AtomKind::FileReadWrite(text.clone(), fd_or_exec(fd, 0))),
        RedirOp::GreatAnd => dup_atom_exec(fd, text, 1),
        RedirOp::LessAnd => dup_atom_exec(fd, text, 0),
    }
}

/// Prepends a parsed atom to the atoms of the rest of the command.
fn atom_cons(a: Atom, rest: Option<Vec<Atom>>) -> (r: Option<Vec<Atom>>)
    ensures
        r is Some <==> rest is Some,
        r matches Some(v) ==> (rest matches Some(v0) && v.deep_view() == seq![a@]
            + v0.deep_view()),
{
    match rest {
        Some(mut v) => {
            let ghost v0 = v@;
            v.insert(0, a);
            proof {
                assert(v.deep_view() =~= seq![a@] + v0.map_values(|x: Atom| x.deep_view()));
                assert(v0.map_values(|x: Atom| x.deep_view()) =~= Seq::new(
                    v0.len(),
                    |i: int| v0[i].deep_view(),
                ));
            }
            Some(v)
        },
        None => None,
    }
}

fn parse_atoms_exec(toks: &Vec<Tok>, i: usize, end: usize) -> (r: Option<Vec<Atom>>)
    requires
        i <= end <= toks@.len(),
        toks_wf(toks_view(toks@)),
    ensures
        r is Some <==> parse_atoms(toks_view(toks@), i as int, end as int) is Some,
        r matches Some(v) ==> parse_atoms(toks_view(toks@), i as int, end as int) == Some(
            v.deep_view(),
        ),
    decreases end - i,
{
    let ghost tv = toks_view(toks@);
    if i >= end {
        let v: Vec<Atom> = Vec::new();
        proof {
            assert(v.deep_view() =~= Seq::<AtomView>::empty());
        }
        return Some(v);
    }
    proof {
        assert(tv[i as int] == toks@[i as int]@);
        assert(tok_wf(tv[i as int]));
    }
    match &toks[i] {
        Tok::Word(text, start, wend) => atom_cons(
            Atom::new(AtomKind::Word(text.clone()), *start, *wend),
            parse_atoms_exec(toks, i + 1, end),
        ),
        Tok::Pipe(start) => atom_cons(
            Atom::new(AtomKind::Pipe, *start, *start + 1),
            parse_atoms_exec(toks, i + 1, end),
        ),
        Tok::Redir(op, fd, start, _oend) => {
            if i + 1 < end {
                proof {
                    assert(tv[i + 1] == toks@[i + 1]@);
                }
                match &toks[i + 1] {
                    Tok::Word(ttext, _tstart, tend) => {
                        match redirect_atom_exec(*op, *fd, ttext) {
                            Some(kind) => atom_cons(
                                Atom::new(kind, *start, *tend),
                                parse_atoms_exec(toks, i + 2, end),
                            ),
                            None => None,
                        }
                    },
                    _ => None,
                }
            } else {
                None
            }
        },
        _ => None,
    }
}

fn is_pipe_atom(a: &Atom) -> (r: bool)
    ensures
        r == (a@.kind is Pipe),
{
    match &a.kind {
        AtomKind::Pipe => true,
        _ => false,
    }
}

fn stages_ok_exec(atoms: &Vec<Atom>) -> (r: bool)
    ensures
        r == stages_ok(atoms.deep_view()),
{
    let ghost av = atoms.deep_view();
    let n = atoms.len();
    if n == 0 {
        return false;
    }
    if is_pipe_atom(&atoms[0]) {
        return false;
    }
    if is_pipe_atom(&atoms[n - 1]) {
        proof {
            assert(av.len() == n);
            assert(av[n as int - 1] == atoms@[n as int - 1]@);
            assert(av[n as int - 1].kind is Pipe);
            assert(av[av.len() - 1].kind is Pipe);
            assert(!stages_ok(av));
        }
        return false;
    }
    let mut k: usize = 0;
    while k + 1 < n
        invariant
            k < n == atoms@.len(),
            av == atoms.deep_view(),
            !(av[0].kind is Pipe),
            !(av[n - 1].kind is Pipe),
            forall|m: int|
                0 <= m < k ==> !((#[trigger] av[m].kind) is Pipe && av[m + 1].kind is Pipe),
        decreases n - k,
    {
        if is_pipe_atom(&atoms[k]) && is_pipe_atom(&atoms[k + 1]) {
            proof {
                assert(av[k as int] == atoms@[k as int]@);
                assert(av[k as int].kind is Pipe && av[k as int + 1].kind is Pipe);
                assert(!stages_ok(av));
            }
            return false;
        }
        k = k + 1;
    }
    true
}

fn parse_command_exec(toks: &Vec<Tok>, i: usize, end: usize) -> (r: Option<Command>)
    requires
        i < end <= toks@.len(),
        toks_wf(toks_view(toks@)),
    ensures
        r is Some <==> parse_command(toks_view(toks@), i as int, end as int) is Some,
        r matches Some(c) ==> parse_command(toks_view(toks@), i as int, end as int) == Some(c@),
{
    let ghost tv = toks_view(toks@);
    proof {
        assert(tv[i as int] == toks@[i as int]@);
        assert(tok_wf(tv[i as int]));
    }
    if end - i == 1 {
        if let Tok::Word(text, start, wend) = &toks[i] {
            let chars = chars_of_str(text.as_str());
            let k = eq_pos_exec(&chars);
            if k > 0 && k < chars.len() - 1 {
                let name = string_of_range(&chars, 0, k);
                let value = string_of_range(&chars, k + 1, chars.len());
                let mut atoms: Vec<Atom> = Vec::new();
                atoms.push(Atom::new(AtomKind::Word(name), *start, *start + k));
                atoms.push(Atom::new(AtomKind::Word(value), *start + k + 1, *wend));
                let cmd = Command::new(CommandKind::Assign, atoms);
                proof {
                    assert(cmd@.atoms =~= assign_command(
                        text@,
                        *start as int,
                        *wend as int,
                    ).atoms);
                }
                return Some(cmd);
            }
        }
    }
    match parse_atoms_exec(toks, i, end) {
        None => None,
        Some(atoms) => {
            if stages_ok_exec(&atoms) {
                Some(Command::new(CommandKind::Execute, atoms))
            } else {
                None
            }
        },
    }
}

fn parse_cmds_exec(toks: &Vec<Tok>, i: usize, op: SequenceKind) -> (r: Option<
    Vec<(SequenceKind, Command)>,
>)
    requires
        i <= toks@.len(),
        toks_wf(toks_view(toks@)),
    ensures
        r is Some <==> parse_cmds(toks_view(toks@), i as int, op) is Some,
        r matches Some(v) ==> parse_cmds(toks_view(toks@), i as int, op) == Some(cmds_view(v@)),
    decreases toks@.len() - i,
{
    let ghost tv = toks_view(toks@);
    let k = sep_pos_exec(toks, i);
    if k <= i {
        return None;
    }
    match parse_command_exec(toks, i, k) {
        None => None,
        Some(cmd) => {
            let ghost cv = cmd@;
            if k >= toks.len() {
                let mut v: Vec<(SequenceKind, Command)> = Vec::new();
                v.push((op, cmd));
                proof {
                    assert(cmds_view(v@) =~= seq![(op, cv)]);
                }
                Some(v)
            } else {
                proof {
                    assert(tv[k as int] == toks@[k as int]@);
                }
                let op2 = sep_kind_exec(&toks[k]);
                match parse_cmds_exec(toks, k + 1, op2) {
                    None => None,
                    Some(mut v) => {
                        let ghost v0 = v@;
                        v.insert(0, (op, cmd));
                        proof {
                            assert(cmds_view(v@) =~= seq![(op, cv)] + cmds_view(v0));
                        }
                        Some(v)
                    },
                }
            }
        },
    }
}

/// Parses one line into its sequence of commands; a line that does not fit
/// the grammar (commonly one still being typed) yields the empty sequence.
pub fn parse(input: String) -> (res: Sequence)
    ensures
        res@ == parse_spec(input@),
{
    let chars = chars_of_str(input.as_str());
    let n = chars.len();
    match lex_part(&chars, 0) {
        None => Sequence::new(),
        Some(toks) => {
            if toks.len() == 0 {
                return Sequence::new();
            }
            proof {
                lemma_lex_wf(chars@, 0);
            }
            match parse_cmds_exec(&toks, 0, SequenceKind::Always) {
                None => Sequence::new(),
                Some(mut v) => {
                    let ghost target = cmds_view(v@);
                    let mut res = Sequence::new();
                    while v.len() > 0
                        invariant
                            res@ + cmds_view(v@) =~= target,
                        decreases v@.len(),
                    {
                        let ghost vpre = v@;
                        let (kind, cmd) = v.remove(0);
                        let ghost cv = cmd@;
                        res.add(kind, cmd);
                        proof {
                            assert(cmds_view(vpre) =~= seq![(kind, cv)] + cmds_view(v@));
                            assert(res@ + cmds_view(v@) =~= target);
                        }
                    }
                    proof {
                        assert(res@ =~= target);
                    }
                    res
                },
            }
        },
    }
}

} // verus!
