//! Small helpers for building `String`s out of character sequences.

use vstd::prelude::*;

verus! {

/// Relies on std's `String::push`: appends exactly the given character to
/// the end of the string.
#[verifier::external_body]
pub fn push_char(s: &mut String, c: char)
    ensures
        final(s)@ == old(s)@.push(c),
{
    s.push(c);
}

/// Builds the string holding the characters `chars[from..to]`, in order.
pub fn string_of_range(chars: &Vec<char>, from: usize, to: usize) -> (res: String)
    requires
        from <= to <= chars@.len(),
    ensures
        res@ == chars@.subrange(from as int, to as int),
{
    let mut res = String::new();
    let mut i: usize = from;
    while i < to
        invariant
            from <= i <= to <= chars@.len(),
            res@ == chars@.subrange(from as int, i as int),
        decreases to - i,
    {
        push_char(&mut res, chars[i]);
        proof {
            assert(res@ =~= chars@.subrange(from as int, i + 1));
        }
        i = i + 1;
    }
    res
}

/// The characters of `s`, one vector entry per character.
pub fn chars_of_str(s: &str) -> (res: Vec<char>)
    ensures
        res@ == s@,
{
    let n = s.unicode_len();
    let mut res: Vec<char> = Vec::new();
    let mut i: usize = 0;
    while i < n
        invariant
            i <= n,
            n == s@.len(),
            res@ == s@.subrange(0, i as int),
        decreases n - i,
    {
        res.push(s.get_char(i));
        proof {
            assert(res@ =~= s@.subrange(0, i + 1));
        }
        i = i + 1;
    }
    proof {
        assert(res@ =~= s@);
    }
    res
}

} // verus!
