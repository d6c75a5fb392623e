//! What the shell asks of the screen.
//!
//! The shell never touches the display. It answers each event with a list of
//! operations, and whoever owns the display carries them out in order.

use crate::text::{decimal, decimal_digits};
use vstd::prelude::*;

verus! {

/// One operation on the screen.
#[derive(Clone, Copy, Debug, PartialEq, Eq, Structural)]
pub enum ScreenOp {
    /// Write one character at the cursor.
    Put(char),
    /// Clear the whole screen.
    Clear,
}

/// The operation that writes `c`.
pub open spec fn put(c: char) -> ScreenOp {
    ScreenOp::Put(c)
}

/// The operations that write `s`, character by character.
pub open spec fn written(s: Seq<char>) -> Seq<ScreenOp> {
    s.map_values(|c: char| put(c))
}

/// A run of `n` blanks.
pub open spec fn blanks(n: nat) -> Seq<char> {
    Seq::new(n, |i: int| ' ')
}

/// Writing one text after another writes their concatenation.
pub proof fn lemma_text_concat(a: Seq<char>, b: Seq<char>)
    ensures
        written(a + b) == written(a) + written(b),
{
    assert(written(a + b) =~= written(a) + written(b));
}

/// Writing a text and then one character writes the text with the character
/// appended.
pub proof fn lemma_written_push(s: Seq<char>, c: char)
    ensures
        written(s.push(c)) == written(s).push(ScreenOp::Put(c)),
{
    assert(written(s.push(c)) =~= written(s).push(put(c)));
}

/// Asks for the character `c` to be written.
pub fn put_char(out: &mut Vec<ScreenOp>, c: char)
    ensures
        final(out)@ == old(out)@.push(ScreenOp::Put(c)),
        final(out)@ == old(out)@ + written(seq![c]),
{
    out.push(ScreenOp::Put(c));
    assert(written(seq![c]) =~= seq![put(c)]);
}

/// Asks for the characters of `s` to be written.
pub fn put_chars(out: &mut Vec<ScreenOp>, s: &Vec<char>)
    ensures
        final(out)@ == old(out)@ + written(s@),
{
    let ghost before = out@;
    let mut i: usize = 0;
    while i < s.len()
        invariant
            i <= s.len(),
            out@ == before + written(s@.take(i as int)),
        decreases s.len() - i,
    {
        let c: char = s[i];
        put_char(out, c);
        proof {
            assert(s@.take(i + 1) == s@.take(i as int).push(c));
            lemma_written_push(s@.take(i as int), c);
        }
        i = i + 1;
    }
    assert(s@.take(i as int) == s@);
}

/// Asks for the text `s` to be written.
pub fn put_str(out: &mut Vec<ScreenOp>, s: &str)
    ensures
        final(out)@ == old(out)@ + written(s@),
{
    let ghost before = out@;
    let n: usize = s.unicode_len();
    let mut i: usize = 0;
    while i < n
        invariant
            n == s@.len(),
            i <= n,
            out@ == before + written(s@.take(i as int)),
        decreases n - i,
    {
        let c: char = s.get_char(i);
        put_char(out, c);
        proof {
            assert(s@.take(i + 1) == s@.take(i as int).push(c));
            lemma_written_push(s@.take(i as int), c);
        }
        i = i + 1;
    }
    assert(s@.take(i as int) == s@);
}

/// Asks for `n` blanks to be written.
pub fn put_blanks(out: &mut Vec<ScreenOp>, n: usize)
    ensures
        final(out)@ == old(out)@ + written(blanks(n as nat)),
{
    let ghost before = out@;
    let mut i: usize = 0;
    while i < n
        invariant
            i <= n,
            out@ == before + written(blanks(i as nat)),
        decreases n - i,
    {
        put_char(out, ' ');
        i = i + 1;
    }
}

/// Asks for the decimal numeral of `n` to be written.
pub fn put_decimal(out: &mut Vec<ScreenOp>, n: u64)
    ensures
        final(out)@ == old(out)@ + written(decimal(n as nat)),
{
    let digits = decimal_digits(n);
    put_chars(out, &digits);
}

} // verus!
