//! The edit buffer: the line under construction, held as two ordered
//! character runs — *before* and *after* the cursor — plus the cached parse
//! of the whole line. Every mutation re-parses, so `get` is free.
//!
//! The buffer's text is the concatenation `before + after`, and the cursor
//! position, measured as the distance from the end of the line, always
//! equals the length of the *after* run.

use std::collections::VecDeque;

use vstd::prelude::*;

use crate::parser::bash;
use crate::parser::Sequence;
use crate::text::push_char;

verus! {

pub struct Input {
    before: VecDeque<char>,
    after: VecDeque<char>,
    parsed: Sequence,
}

impl View for Input {
    type V = (Seq<char>, Seq<char>);

    closed spec fn view(&self) -> (Seq<char>, Seq<char>) {
        (self.before@, self.after@)
    }
}

impl Input {
    /// The whole line: the characters before the cursor, then those after.
    pub open spec fn line(&self) -> Seq<char> {
        self@.0 + self@.1
    }

    /// The cached parse always belongs to the current text.
    pub closed spec fn wf(&self) -> bool {
        self.parsed@ == bash::parse_spec(self.line())
    }

    pub fn new() -> (res: Input)
        ensures
            res@ == (Seq::<char>::empty(), Seq::<char>::empty()),
            res.wf(),
    {
        let res = Input { before: VecDeque::new(), after: VecDeque::new(), parsed: Sequence::new() };
        proof {
            assert(res.line() =~= Seq::<char>::empty());
            lemma_empty_parse();
        }
        res
    }

    pub fn clear(&mut self)
        ensures
            final(self)@ == (Seq::<char>::empty(), Seq::<char>::empty()),
            final(self).wf(),
    {
        self.before.clear();
        self.after.clear();
        self.parse();
    }

    /// Inserts a character at the cursor: it joins the end of the *before*
    /// run.
    pub fn push(&mut self, c: char)
        ensures
            final(self)@ == (old(self)@.0.push(c), old(self)@.1),
            final(self).wf(),
    {
        self.before.push_back(c);
        self.parse();
    }

    /// The parse of the current text.
    pub fn get(&self) -> (res: Sequence)
        requires
            self.wf(),
        ensures
            res@ == bash::parse_spec(self.line()),
    {
        self.parsed.clone()
    }

    pub fn is_empty(&self) -> (res: bool)
        ensures
            res == (self@.0.len() == 0 && self@.1.len() == 0),
    {
        self.before.len() == 0 && self.after.len() == 0
    }

    /// Deletes the character just before the cursor; a no-op on an empty
    /// *before* run.
    pub fn pop_prev(&mut self) -> (res: Option<char>)
        ensures
            final(self)@.1 == old(self)@.1,
            final(self).wf(),
            old(self)@.0.len() == 0 ==> final(self)@.0 == old(self)@.0 && res is None,
            old(self)@.0.len() > 0 ==> final(self)@.0 == old(self)@.0.drop_last() && res == Some(
                old(self)@.0.last(),
            ),
    {
        let popped = self.before.pop_back();
        self.parse();
        popped
    }

    /// Deletes the character just after the cursor; a no-op on an empty
    /// *after* run.
    pub fn pop_next(&mut self) -> (res: Option<char>)
        ensures
            final(self)@.0 == old(self)@.0,
            final(self).wf(),
            old(self)@.1.len() == 0 ==> final(self)@.1 == old(self)@.1 && res is None,
            old(self)@.1.len() > 0 ==> final(self)@.1 == old(self)@.1.skip(1) && res == Some(
                old(self)@.1[0],
            ),
    {
        let popped = self.after.pop_front();
        proof {
            if old(self)@.1.len() > 0 {
                assert(self@.1 =~= old(self)@.1.skip(1));
            }
        }
        self.parse();
        popped
    }

    /// The line as one string; the cursor does not move.
    pub fn raw(&self) -> (res: String)
        ensures
            res@ == self.line(),
    {
        let mut res = String::new();
        let mut i: usize = 0;
        while i < self.before.len()
            invariant
                i <= self.before@.len(),
                res@ == self.before@.subrange(0, i as int),
            decreases self.before@.len() - i,
        {
            push_char(&mut res, self.before[i]);
            proof {
                assert(res@ =~= self.before@.subrange(0, i + 1));
            }
            i = i + 1;
        }
        proof {
            assert(res@ =~= self.before@);
        }
        let mut j: usize = 0;
        while j < self.after.len()
            invariant
                j <= self.after@.len(),
                res@ == self.before@ + self.after@.subrange(0, j as int),
            decreases self.after@.len() - j,
        {
            push_char(&mut res, self.after[j]);
            proof {
                assert(res@ =~= self.before@ + self.after@.subrange(0, j + 1));
            }
            j = j + 1;
        }
        proof {
            assert(res@ =~= self.line());
        }
        res
    }

    /// Replaces the whole buffer with `raw`, cursor at the end.
    pub fn set(&mut self, raw: &str)
        ensures
            final(self)@ == (raw@, Seq::<char>::empty()),
            final(self).wf(),
    {
        self.before.clear();
        self.after.clear();
        let n = raw.unicode_len();
        let mut i: usize = 0;
        while i < n
            invariant
                i <= n,
                n == raw@.len(),
                self.before@ == raw@.subrange(0, i as int),
                self.after@.len() == 0,
            decreases n - i,
        {
            self.before.push_back(raw.get_char(i));
            proof {
                assert(self.before@ =~= raw@.subrange(0, i + 1));
            }
            i = i + 1;
        }
        proof {
            assert(self.before@ =~= raw@);
        }
        self.parse();
    }

    /// Moves the cursor one position left by moving one character from the
    /// end of *before* to the front of *after*; `false` at the line start.
    pub fn left(&mut self) -> (res: bool)
        ensures
            final(self).line() == old(self).line(),
            old(self).wf() ==> final(self).wf(),
            old(self)@.0.len() == 0 ==> final(self)@ == old(self)@ && res == false,
            old(self)@.0.len() > 0 ==> final(self)@ == (
                old(self)@.0.drop_last(),
                seq![old(self)@.0.last()] + old(self)@.1,
            ) && res == true,
    {
        let moved = match self.before.pop_back() {
            Some(c) => {
                self.after.push_front(c);
                true
            },
            None => false,
        };
        proof {
            assert(final(self).line() =~= old(self).line());
        }
        moved
    }

    /// Moves the cursor one position right; `false` at the line end.
    pub fn right(&mut self) -> (res: bool)
        ensures
            final(self).line() == old(self).line(),
            old(self).wf() ==> final(self).wf(),
            old(self)@.1.len() == 0 ==> final(self)@ == old(self)@ && res == false,
            old(self)@.1.len() > 0 ==> final(self)@ == (
                old(self)@.0.push(old(self)@.1[0]),
                old(self)@.1.skip(1),
            ) && res == true,
    {
        let moved = match self.after.pop_front() {
            Some(c) => {
                self.before.push_back(c);
                true
            },
            None => false,
        };
        proof {
            if old(self)@.1.len() > 0 {
                assert(self@.1 =~= old(self)@.1.skip(1));
            }
            assert(final(self).line() =~= old(self).line());
        }
        moved
    }

    /// The cursor's distance from the end of the line: the length of the
    /// *after* run.
    pub fn position(&self) -> (res: usize)
        ensures
            res == self@.1.len(),
    {
        self.after.len()
    }

    pub(crate) fn parse(&mut self)
        ensures
            final(self)@ == old(self)@,
            final(self).wf(),
    {
        let raw = self.raw();
        self.parsed = bash::parse(raw);
    }
}

/// Parsing the empty line yields the empty sequence.
proof fn lemma_empty_parse()
    ensures
        bash::parse_spec(Seq::<char>::empty()) == Seq::<
            (crate::parser::SequenceKind, crate::parser::CommandView),
        >::empty(),
{
}

} // verus!
