//! Text handling for the shell: decimal numerals, whitespace and the
//! splitting of a command line into words.

use vstd::prelude::*;

verus! {

/// The numeral for a single digit.
pub open spec fn digit(d: nat) -> char
    recommends
        d < 10,
{
    (48 + d) as u8 as char
}

/// The decimal numeral of `n`, most significant digit first, without leading
/// zeros.
pub open spec fn decimal(n: nat) -> Seq<char>
    decreases n,
{
    if n < 10 {
        seq![digit(n)]
    } else {
        decimal(n / 10).push(digit(n % 10))
    }
}

/// The number that a string of digits denotes in base ten.
pub open spec fn numeral_value(s: Seq<char>) -> nat
    decreases s.len(),
{
    if s.len() == 0 {
        0
    } else {
        (numeral_value(s.drop_last()) * 10 + (s.last() as nat - 48)) as nat
    }
}

/// The decimal numeral of `n` is made of digits, denotes `n`, and begins with
/// a zero only where `n` is zero.
pub proof fn lemma_decimal_denotes(n: nat)
    ensures
        decimal(n).len() >= 1,
        forall|i: int| 0 <= i < decimal(n).len() ==> '0' <= #[trigger] decimal(n)[i] <= '9',
        numeral_value(decimal(n)) == n,
        decimal(n)[0] == '0' <==> n == 0,
    decreases n,
{
    assert(digit(n % 10) as nat == 48 + n % 10);
    assert(decimal(n).last() == digit(n % 10));
    if n < 10 {
        assert(decimal(n).drop_last() == Seq::<char>::empty());
        assert(numeral_value(decimal(n).drop_last()) == 0);
    } else {
        lemma_decimal_denotes(n / 10);
        assert(decimal(n).drop_last() == decimal(n / 10));
    }
}

/// Appends the decimal numeral of `n` to `out`.
pub fn push_decimal(out: &mut Vec<char>, n: u64)
    ensures
        final(out)@ == old(out)@ + decimal(n as nat),
    decreases n,
{
    if n >= 10 {
        push_decimal(out, n / 10);
    }
    let d: u8 = (n % 10) as u8;
    out.push((48 + d) as char);
}

/// The decimal numeral of `n`.
pub fn decimal_digits(n: u64) -> (r: Vec<char>)
    ensures
        r@ == decimal(n as nat),
{
    let mut r: Vec<char> = Vec::new();
    push_decimal(&mut r, n);
    r
}

/// Whether `c` is whitespace, that is, has the Unicode property White_Space.
pub open spec fn is_whitespace(c: char) -> bool {
    let v = c as u32;
    ||| 0x09 <= v <= 0x0D
    ||| v == 0x20
    ||| v == 0x85
    ||| v == 0xA0
    ||| v == 0x1680
    ||| 0x2000 <= v <= 0x200A
    ||| v == 0x2028
    ||| v == 0x2029
    ||| v == 0x202F
    ||| v == 0x205F
    ||| v == 0x3000
}

/// Tests whether `c` is whitespace.
pub fn is_space(c: char) -> (r: bool)
    ensures
        r == is_whitespace(c),
{
    let v: u32 = c as u32;
    (0x09 <= v && v <= 0x0D) || v == 0x20 || v == 0x85 || v == 0xA0 || v == 0x1680 || (0x2000 <= v
        && v <= 0x200A) || v == 0x2028 || v == 0x2029 || v == 0x202F || v == 0x205F || v == 0x3000
}

/// Whether `s` ends inside a word: its last character is not whitespace.
pub open spec fn ends_in_word(s: Seq<char>) -> bool {
    s.len() > 0 && !is_whitespace(s.last())
}

/// The words of `s`: its maximal runs of characters that are not whitespace,
/// in the order in which they stand.
///
/// Read from the left, a whitespace character adds nothing, a character that
/// follows a character of a word lengthens that word, and any other
/// character begins a new word.
pub open spec fn words(s: Seq<char>) -> Seq<Seq<char>>
    decreases s.len(),
{
    if s.len() == 0 {
        Seq::empty()
    } else {
        let before = words(s.drop_last());
        if is_whitespace(s.last()) {
            before
        } else if ends_in_word(s.drop_last()) {
            before.drop_last().push(before.last().push(s.last()))
        } else {
            before.push(seq![s.last()])
        }
    }
}

/// The views of a vector of words.
pub open spec fn word_views(v: Seq<Vec<char>>) -> Seq<Seq<char>> {
    v.map_values(|w: Vec<char>| w@)
}

/// A text that ends inside a word has at least one word, and its last word is
/// not empty.
pub proof fn lemma_last_word(s: Seq<char>)
    requires
        ends_in_word(s),
    ensures
        words(s).len() > 0,
        words(s).last().len() > 0,
    decreases s.len(),
{
    if ends_in_word(s.drop_last()) {
        lemma_last_word(s.drop_last());
    }
}

/// No word is empty and no word holds a whitespace character.
pub proof fn lemma_words_hold_no_whitespace(s: Seq<char>, i: int)
    requires
        0 <= i < words(s).len(),
    ensures
        words(s)[i].len() > 0,
        forall|j: int| 0 <= j < words(s)[i].len() ==> !is_whitespace(#[trigger] words(s)[i][j]),
    decreases s.len(),
{
    let init = s.drop_last();
    if is_whitespace(s.last()) {
        lemma_words_hold_no_whitespace(init, i);
    } else if ends_in_word(init) {
        lemma_last_word(init);
        if i < words(init).len() - 1 {
            lemma_words_hold_no_whitespace(init, i);
        } else {
            lemma_words_hold_no_whitespace(init, words(init).len() - 1);
        }
    } else if i < words(init).len() {
        lemma_words_hold_no_whitespace(init, i);
    }
}

/// A text without whitespace is one word, and an empty text has none.
pub proof fn lemma_single_word(s: Seq<char>)
    requires
        forall|j: int| 0 <= j < s.len() ==> !is_whitespace(#[trigger] s[j]),
    ensures
        words(s) == if s.len() == 0 {
            Seq::<Seq<char>>::empty()
        } else {
            seq![s]
        },
    decreases s.len(),
{
    if s.len() > 0 {
        let init = s.drop_last();
        lemma_single_word(init);
        if init.len() > 0 {
            assert(init.push(s.last()) == s);
            assert(seq![init].drop_last().push(seq![init].last().push(s.last())) =~~= seq![s]);
        } else {
            assert(seq![s.last()] == s);
        }
    }
}

/// Splits `line` into its words.
pub fn split_whitespace(line: &Vec<char>) -> (r: Vec<Vec<char>>)
    ensures
        word_views(r@) == words(line@),
{
    let mut done: Vec<Vec<char>> = Vec::new();
    let mut current: Vec<char> = Vec::new();
    let mut i: usize = 0;
    while i < line.len()
        invariant
            i <= line.len(),
            ends_in_word(line@.take(i as int)) ==> current@.len() > 0 && words(
                line@.take(i as int),
            ) == word_views(done@).push(current@),
            !ends_in_word(line@.take(i as int)) ==> current@.len() == 0 && words(
                line@.take(i as int),
            ) == word_views(done@),
        decreases line.len() - i,
    {
        let c: char = line[i];
        proof {
            assert(line@.take(i + 1).drop_last() == line@.take(i as int));
            assert(line@.take(i + 1).last() == c);
        }
        if is_space(c) {
            if current.len() > 0 {
                let ghost before = word_views(done@);
                done.push(current);
                current = Vec::new();
                assert(word_views(done@) == before.push(done@.last()@));
            }
        } else {
            let ghost word = current@;
            current.push(c);
            proof {
                let prefix = line@.take(i as int);
                if ends_in_word(prefix) {
                    assert(words(prefix).drop_last() == word_views(done@));
                    assert(words(prefix).last() == word);
                } else {
                    assert(current@ == seq![c]);
                }
            }
        }
        i = i + 1;
    }
    proof {
        assert(line@.take(i as int) == line@);
    }
    if current.len() > 0 {
        let ghost before = word_views(done@);
        done.push(current);
        assert(word_views(done@) == before.push(done@.last()@));
    }
    done
}

/// The words `ws` written one after another with `sep` between each two.
pub open spec fn join(ws: Seq<Seq<char>>, sep: char) -> Seq<char>
    decreases ws.len(),
{
    if ws.len() == 0 {
        Seq::empty()
    } else if ws.len() == 1 {
        ws[0]
    } else {
        join(ws.drop_last(), sep).push(sep) + ws.last()
    }
}

/// Writes the words of `parts` from index `from` on, one after another, with
/// `sep` between each two.
pub fn join_words(parts: &Vec<Vec<char>>, from: usize, sep: char) -> (r: Vec<char>)
    requires
        from <= parts.len(),
    ensures
        r@ == join(word_views(parts@).skip(from as int), sep),
{
    let ghost all = word_views(parts@);
    let mut r: Vec<char> = Vec::new();
    let mut i: usize = from;
    while i < parts.len()
        invariant
            from <= i <= parts.len(),
            all == word_views(parts@),
            r@ == join(all.subrange(from as int, i as int), sep),
        decreases parts.len() - i,
    {
        proof {
            let next = all.subrange(from as int, i + 1);
            assert(next.drop_last() == all.subrange(from as int, i as int));
            assert(next.last() == parts@[i as int]@);
        }
        if i > from {
            r.push(sep);
        }
        r.extend_from_slice(parts[i].as_slice());
        i = i + 1;
    }
    proof {
        assert(all.subrange(from as int, i as int) == all.skip(from as int));
    }
    r
}

/// Tests whether `word` reads `name`.
pub fn word_is(word: &Vec<char>, name: &str) -> (r: bool)
    ensures
        r == (word@ == name@),
{
    let n: usize = name.unicode_len();
    if word.len() != n {
        return false;
    }
    let mut i: usize = 0;
    while i < n
        invariant
            n == name@.len(),
            n == word@.len(),
            i <= n,
            word@.take(i as int) == name@.take(i as int),
        decreases n - i,
    {
        if word[i] != name.get_char(i) {
            return false;
        }
        proof {
            assert(word@.take(i + 1) == word@.take(i as int).push(word@[i as int]));
            assert(name@.take(i + 1) == name@.take(i as int).push(name@[i as int]));
        }
        i = i + 1;
    }
    proof {
        assert(word@.take(n as int) == word@);
        assert(name@.take(n as int) == name@);
    }
    true
}

} // verus!
