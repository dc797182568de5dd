//! A line processor: the same cursor-aware buffer as [`crate::input::Input`],
//! with the re-parse step exposed to the caller.

use vstd::prelude::*;

use crate::input::Input;
use crate::parser::bash;
use crate::parser::Sequence;

verus! {

pub struct Processor {
    inner: Input,
}

impl View for Processor {
    type V = (Seq<char>, Seq<char>);

    closed spec fn view(&self) -> (Seq<char>, Seq<char>) {
        self.inner@
    }
}

impl Processor {
    /// The whole line: the characters before the cursor, then those after.
    pub open spec fn line(&self) -> Seq<char> {
        self@.0 + self@.1
    }

    /// The cached parse always belongs to the current text.
    pub closed spec fn wf(&self) -> bool {
        self.inner.wf()
    }

    pub fn new() -> (res: Processor)
        ensures
            res@ == (Seq::<char>::empty(), Seq::<char>::empty()),
            res.wf(),
    {
        Processor { inner: Input::new() }
    }

    pub fn clear(&mut self)
        ensures
            final(self)@ == (Seq::<char>::empty(), Seq::<char>::empty()),
            final(self).wf(),
    {
        self.inner.clear();
    }

    /// Inserts a character at the cursor.
    pub fn push(&mut self, c: char)
        ensures
            final(self)@ == (old(self)@.0.push(c), old(self)@.1),
            final(self).wf(),
    {
        self.inner.push(c);
    }

    /// The parse of the current text.
    pub fn get(&self) -> (res: Sequence)
        requires
            self.wf(),
        ensures
            res@ == bash::parse_spec(self.line()),
    {
        self.inner.get()
    }

    pub fn is_empty(&self) -> (res: bool)
        ensures
            res == (self@.0.len() == 0 && self@.1.len() == 0),
    {
        self.inner.is_empty()
    }

    /// Deletes the character just before the cursor, if any.
    pub fn pop_prev(&mut self) -> (res: Option<char>)
        ensures
            final(self)@.1 == old(self)@.1,
            final(self).wf(),
            old(self)@.0.len() == 0 ==> final(self)@.0 == old(self)@.0 && res is None,
            old(self)@.0.len() > 0 ==> final(self)@.0 == old(self)@.0.drop_last() && res == Some(
                old(self)@.0.last(),
            ),
    {
        self.inner.pop_prev()
    }

    /// Deletes the character just after the cursor, if any.
    pub fn pop_next(&mut self) -> (res: Option<char>)
        ensures
            final(self)@.0 == old(self)@.0,
            final(self).wf(),
            old(self)@.1.len() == 0 ==> final(self)@.1 == old(self)@.1 && res is None,
            old(self)@.1.len() > 0 ==> final(self)@.1 == old(self)@.1.skip(1) && res == Some(
                old(self)@.1[0],
            ),
    {
        self.inner.pop_next()
    }

    /// The line as one string; the cursor does not move.
    pub fn raw(&self) -> (res: String)
        ensures
            res@ == self.line(),
    {
        self.inner.raw()
    }

    /// Replaces the whole buffer, cursor at the end.
    pub fn set(&mut self, raw: String)
        ensures
            final(self)@ == (raw@, Seq::<char>::empty()),
            final(self).wf(),
    {
        self.inner.set(raw.as_str());
    }

    /// Moves the cursor one position left; `false` at the line start.
    pub fn left(&mut self) -> (res: bool)
        ensures
            final(self).line() == old(self).line(),
            old(self).wf() ==> final(self).wf(),
            old(self)@.0.len() == 0 ==> final(self)@ == old(self)@ && res == false,
            old(self)@.0.len() > 0 ==> final(self)@ == (
                old(self)@.0.drop_last(),
                seq![old(self)@.0.last()] + old(self)@.1,
            ) && res == true,
    {
        self.inner.left()
    }

    /// Moves the cursor one position right; `false` at the line end.
    pub fn right(&mut self) -> (res: bool)
        ensures
            final(self).line() == old(self).line(),
            old(self).wf() ==> final(self).wf(),
            old(self)@.1.len() == 0 ==> final(self)@ == old(self)@ && res == false,
            old(self)@.1.len() > 0 ==> final(self)@ == (
                old(self)@.0.push(old(self)@.1[0]),
                old(self)@.1.skip(1),
            ) && res == true,
    {
        self.inner.right()
    }

    /// The cursor's distance from the end of the line.
    pub fn position(&self) -> (res: usize)
        ensures
            res == self@.1.len(),
    {
        self.inner.position()
    }

    /// Re-parses the current text; afterwards the cached parse is current.
    pub fn parse(&mut self)
        ensures
            final(self)@ == old(self)@,
            final(self).wf(),
    {
        self.inner.parse();
    }
}

} // verus!
