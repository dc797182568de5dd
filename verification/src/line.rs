//! A plain line parser: the same two-run cursor buffer as the edit buffer,
//! but the "parse" is only a whitespace split into argument words. Deleting
//! characters does not re-split; inserting or replacing text does.

use std::collections::VecDeque;

use vstd::prelude::*;

use crate::text::{push_char, string_of_range};

verus! {

/// End of the whitespace-free run starting at `i`.
pub open spec fn run_end(s: Seq<char>, i: int) -> int
    decreases s.len() - i,
{
    if i < 0 || i >= s.len() {
        i
    } else if !crate::parser::bash::is_space(s[i]) {
        run_end(s, i + 1)
    } else {
        i
    }
}

pub proof fn lemma_run_end(s: Seq<char>, i: int)
    requires
        0 <= i <= s.len(),
    ensures
        i <= run_end(s, i) <= s.len(),
        i < s.len() && !crate::parser::bash::is_space(s[i]) ==> i + 1 <= run_end(s, i),
    decreases s.len() - i,
{
    if i < s.len() && !crate::parser::bash::is_space(s[i]) {
        lemma_run_end(s, i + 1);
    }
}

/// The whitespace-separated words of `s` from position `i` on: the maximal
/// runs of non-whitespace characters, in order.
pub open spec fn ws_split_from(s: Seq<char>, i: int) -> Seq<Seq<char>>
    decreases s.len() - i, 1int,
    via ws_split_decreases
{
    if i < 0 || i >= s.len() {
        Seq::empty()
    } else if crate::parser::bash::is_space(s[i]) {
        ws_split_from(s, i + 1)
    } else {
        seq![s.subrange(i, run_end(s, i))] + ws_split_from(s, run_end(s, i))
    }
}

#[via_fn]
proof fn ws_split_decreases(s: Seq<char>, i: int) {
    if 0 <= i < s.len() {
        lemma_run_end(s, i);
        if !crate::parser::bash::is_space(s[i]) {
            lemma_run_end(s, i + 1);
        }
    }
}

/// The whitespace-separated words of `s`.
pub open spec fn ws_split(s: Seq<char>) -> Seq<Seq<char>> {
    ws_split_from(s, 0)
}

/// Splits a character vector into its whitespace-separated words.
fn ws_split_exec(s: &Vec<char>, i: usize) -> (res: Vec<String>)
    requires
        i <= s@.len(),
    ensures
        res.deep_view() == ws_split_from(s@, i as int),
    decreases s@.len() - i, 1int,
{
    if i >= s.len() {
        let res: Vec<String> = Vec::new();
        proof {
            assert(res.deep_view() =~= Seq::<Seq<char>>::empty());
        }
        return res;
    }
    if s[i] == ' ' || s[i] == '\t' {
        return ws_split_exec(s, i + 1);
    }
    proof {
        lemma_run_end(s@, i as int);
        if !crate::parser::bash::is_space(s@[i as int]) {
            lemma_run_end(s@, i + 1);
        }
    }
    let j = run_end_exec(s, i);
    let word = string_of_range(s, i, j);
    let mut res = ws_split_exec(s, j);
    let ghost tail = res.deep_view();
    res.insert(0, word);
    proof {
        assert(res.deep_view() =~= seq![s@.subrange(i as int, j as int)] + tail);
    }
    res
}

fn run_end_exec(s: &Vec<char>, i: usize) -> (j: usize)
    requires
        i <= s@.len(),
    ensures
        j == run_end(s@, i as int),
        i <= j <= s@.len(),
{
    let mut j = i;
    while j < s.len() && !(s[j] == ' ' || s[j] == '\t')
        invariant
            i <= j <= s@.len(),
            run_end(s@, i as int) == run_end(s@, j as int),
        decreases s@.len() - j,
    {
        proof {
            assert(run_end(s@, j as int) == run_end(s@, j + 1));
        }
        j = j + 1;
    }
    j
}

/// A line buffer whose cached parse is the whitespace split of its text.
/// `push`, `set` and `clear` refresh the split; `pop_prev` and `pop_next`
/// deliberately do not (the caller re-splits when it next needs the words).
pub struct Parser {
    before: VecDeque<char>,
    after: VecDeque<char>,
    args: Vec<String>,
}

impl View for Parser {
    type V = (Seq<char>, Seq<char>);

    closed spec fn view(&self) -> (Seq<char>, Seq<char>) {
        (self.before@, self.after@)
    }
}

impl Parser {
    /// The whole line.
    pub open spec fn line(&self) -> Seq<char> {
        self@.0 + self@.1
    }

    /// The cached argument words.
    pub closed spec fn cached(&self) -> Seq<Seq<char>> {
        self.args.deep_view()
    }

    /// The cached words are the whitespace split of the current text.
    pub open spec fn wf(&self) -> bool {
        self.cached() == ws_split(self.line())
    }

    pub fn new() -> (res: Parser)
        ensures
            res@ == (Seq::<char>::empty(), Seq::<char>::empty()),
            res.wf(),
    {
        let res = Parser { before: VecDeque::new(), after: VecDeque::new(), args: Vec::new() };
        proof {
            assert(res.line() =~= Seq::<char>::empty());
            assert(res.cached() =~= Seq::<Seq<char>>::empty());
        }
        res
    }

    pub fn clear(&mut self)
        ensures
            final(self)@ == (Seq::<char>::empty(), Seq::<char>::empty()),
            final(self).wf(),
    {
        self.before.clear();
        self.after.clear();
        self.parse();
    }

    /// Inserts a character at the cursor and re-splits.
    pub fn push(&mut self, c: char)
        ensures
            final(self)@ == (old(self)@.0.push(c), old(self)@.1),
            final(self).wf(),
    {
        self.before.push_back(c);
        self.parse();
    }

    /// The first cached word, if any.
    pub fn command(&self) -> (res: Option<String>)
        ensures
            self.cached().len() == 0 ==> res is None,
            self.cached().len() > 0 ==> (res matches Some(w) && w@ == self.cached()[0]),
    {
        if self.args.len() > 0 {
            Some(self.args[0].clone())
        } else {
            None
        }
    }

    /// All cached words, in order.
    pub fn args(&self) -> (res: Vec<String>)
        ensures
            res.deep_view() == self.cached(),
    {
        let res = self.args.clone();
        proof {
            assert forall|i: int| 0 <= i < res@.len() implies res@[i]@ == self.args@[i]@ by {
                assert(cloned::<String>(self.args[i], res[i]));
            }
            assert(res.deep_view() =~= self.args.deep_view());
        }
        res
    }

    pub fn is_empty(&self) -> (res: bool)
        ensures
            res == (self@.0.len() == 0 && self@.1.len() == 0),
    {
        self.before.len() == 0 && self.after.len() == 0
    }

    /// Deletes the character just before the cursor, leaving the cached
    /// words as they were.
    pub fn pop_prev(&mut self) -> (res: Option<char>)
        ensures
            final(self)@.1 == old(self)@.1,
            final(self).cached() == old(self).cached(),
            old(self)@.0.len() == 0 ==> final(self)@.0 == old(self)@.0 && res is None,
            old(self)@.0.len() > 0 ==> final(self)@.0 == old(self)@.0.drop_last() && res == Some(
                old(self)@.0.last(),
            ),
    {
        self.before.pop_back()
    }

    /// Deletes the character just after the cursor, leaving the cached
    /// words as they were.
    pub fn pop_next(&mut self) -> (res: Option<char>)
        ensures
            final(self)@.0 == old(self)@.0,
            final(self).cached() == old(self).cached(),
            old(self)@.1.len() == 0 ==> final(self)@.1 == old(self)@.1 && res is None,
            old(self)@.1.len() > 0 ==> final(self)@.1 == old(self)@.1.skip(1) && res == Some(
                old(self)@.1[0],
            ),
    {
        let popped = self.after.pop_front();
        proof {
            if old(self)@.1.len() > 0 {
                assert(self@.1 =~= old(self)@.1.skip(1));
            }
        }
        popped
    }

    /// The line as one string; the cursor does not move.
    pub fn raw(&self) -> (res: String)
        ensures
            res@ == self.line(),
    {
        let mut res = String::new();
        let mut i: usize = 0;
        while i < self.before.len()
            invariant
                i <= self.before@.len(),
                res@ == self.before@.subrange(0, i as int),
            decreases self.before@.len() - i,
        {
            push_char(&mut res, self.before[i]);
            proof {
                assert(res@ =~= self.before@.subrange(0, i + 1));
            }
            i = i + 1;
        }
        proof {
            assert(res@ =~= self.before@);
        }
        let mut j: usize = 0;
        while j < self.after.len()
            invariant
                j <= self.after@.len(),
                res@ == self.before@ + self.after@.subrange(0, j as int),
            decreases self.after@.len() - j,
        {
            push_char(&mut res, self.after[j]);
            proof {
                assert(res@ =~= self.before@ + self.after@.subrange(0, j + 1));
            }
            j = j + 1;
        }
        proof {
            assert(res@ =~= self.line());
        }
        res
    }

    /// Replaces the whole buffer, cursor at the end, and re-splits.
    pub fn set(&mut self, raw: String)
        ensures
            final(self)@ == (raw@, Seq::<char>::empty()),
            final(self).wf(),
    {
        self.before.clear();
        self.after.clear();
        let rs = raw.as_str();
        let n = rs.unicode_len();
        let mut i: usize = 0;
        while i < n
            invariant
                i <= n,
                n == rs@.len(),
                self.before@ == rs@.subrange(0, i as int),
                self.after@.len() == 0,
            decreases n - i,
        {
            self.before.push_back(rs.get_char(i));
            proof {
                assert(self.before@ =~= rs@.subrange(0, i + 1));
            }
            i = i + 1;
        }
        proof {
            assert(self.before@ =~= raw@);
        }
        self.parse();
    }

    /// Moves the cursor one position left; `false` at the line start.
    pub fn left(&mut self) -> (res: bool)
        ensures
            final(self).line() == old(self).line(),
            final(self).cached() == old(self).cached(),
            old(self).wf() ==> final(self).wf(),
            old(self)@.0.len() == 0 ==> final(self)@ == old(self)@ && res == false,
            old(self)@.0.len() > 0 ==> final(self)@ == (
                old(self)@.0.drop_last(),
                seq![old(self)@.0.last()] + old(self)@.1,
            ) && res == true,
    {
        let moved = match self.before.pop_back() {
            Some(c) => {
                self.after.push_front(c);
                true
            },
            None => false,
        };
        proof {
            assert(final(self).line() =~= old(self).line());
        }
        moved
    }

    /// Moves the cursor one position right; `false` at the line end.
    pub fn right(&mut self) -> (res: bool)
        ensures
            final(self).line() == old(self).line(),
            final(self).cached() == old(self).cached(),
            old(self).wf() ==> final(self).wf(),
            old(self)@.1.len() == 0 ==> final(self)@ == old(self)@ && res == false,
            old(self)@.1.len() > 0 ==> final(self)@ == (
                old(self)@.0.push(old(self)@.1[0]),
                old(self)@.1.skip(1),
            ) && res == true,
    {
        let moved = match self.after.pop_front() {
            Some(c) => {
                self.before.push_back(c);
                true
            },
            None => false,
        };
        proof {
            if old(self)@.1.len() > 0 {
                assert(self@.1 =~= old(self)@.1.skip(1));
            }
            assert(final(self).line() =~= old(self).line());
        }
        moved
    }

    fn parse(&mut self)
        ensures
            final(self)@ == old(self)@,
            final(self).wf(),
    {
        let mut chars: Vec<char> = Vec::new();
        let mut i: usize = 0;
        while i < self.before.len()
            invariant
                i <= self.before@.len(),
                chars@ == self.before@.subrange(0, i as int),
                self@ == old(self)@,
            decreases self.before@.len() - i,
        {
            chars.push(self.before[i]);
            proof {
                assert(chars@ =~= self.before@.subrange(0, i + 1));
            }
            i = i + 1;
        }
        proof {
            assert(chars@ =~= self.before@);
        }
        let mut j: usize = 0;
        while j < self.after.len()
            invariant
                j <= self.after@.len(),
                chars@ == self.before@ + self.after@.subrange(0, j as int),
                self@ == old(self)@,
            decreases self.after@.len() - j,
        {
            chars.push(self.after[j]);
            proof {
                assert(chars@ =~= self.before@ + self.after@.subrange(0, j + 1));
            }
            j = j + 1;
        }
        proof {
            assert(chars@ =~= self.line());
        }
        self.args = ws_split_exec(&chars, 0);
    }
}

} // verus!
