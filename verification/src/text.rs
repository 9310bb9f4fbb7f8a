//! Text as sequences of characters: whitespace, the split of a line into
//! lexemes, trimming, and the order of two texts.

use vstd::prelude::*;
use vstd::std_specs::iter::IteratorSpec;

verus! {

/// `String::push` of the standard library: the character is appended, and
/// nothing else changes.
pub assume_specification[ String::push ](s: &mut String, c: char)
    ensures
        final(s)@ == old(s)@.push(c),
;

/// The characters with the Unicode property `White_Space`.
pub open spec fn is_whitespace(c: char) -> bool {
    let u = c as u32;
    ||| 0x09 <= u <= 0x0d
    ||| u == 0x20
    ||| u == 0x85
    ||| u == 0xa0
    ||| u == 0x1680
    ||| 0x2000 <= u <= 0x200a
    ||| u == 0x2028
    ||| u == 0x2029
    ||| u == 0x202f
    ||| u == 0x205f
    ||| u == 0x3000
}

/// What parts lexemes from each other: whitespace and the two parentheses.
pub open spec fn is_separator(c: char) -> bool {
    is_whitespace(c) || c == '(' || c == ')'
}

/// The lexemes of `cur` followed by `rest`, where `cur` is the part already
/// read of a lexeme that may go on in `rest`.
pub open spec fn lexemes_after(cur: Seq<char>, rest: Seq<char>) -> Seq<Seq<char>>
    decreases rest.len(),
{
    let done = if cur.len() == 0 {
        Seq::<Seq<char>>::empty()
    } else {
        seq![cur]
    };
    if rest.len() == 0 {
        done
    } else if is_separator(rest[0]) {
        done + lexemes_after(Seq::empty(), rest.drop_first())
    } else {
        lexemes_after(cur.push(rest[0]), rest.drop_first())
    }
}

/// The lexemes of a line: its maximal runs of characters that are no
/// separators, in the order in which they stand.
pub open spec fn lexemes(line: Seq<char>) -> Seq<Seq<char>> {
    lexemes_after(Seq::empty(), line)
}

/// The characters of a line that are no separators, in their order.
pub open spec fn word_characters(line: Seq<char>) -> Seq<char> {
    line.filter(not_separator())
}

/// The test that tells the characters of lexemes from the separators.
pub open spec fn not_separator() -> spec_fn(char) -> bool {
    |c: char| !is_separator(c)
}

/// `s` without the whitespace at its end.
pub open spec fn trim_end(s: Seq<char>) -> Seq<char>
    decreases s.len(),
{
    if s.len() > 0 && is_whitespace(s.last()) {
        trim_end(s.drop_last())
    } else {
        s
    }
}

/// `a` comes strictly before `b` in the lexicographic order by code points.
pub open spec fn text_lt(a: Seq<char>, b: Seq<char>) -> bool
    decreases a.len(),
{
    if b.len() == 0 {
        false
    } else if a.len() == 0 {
        true
    } else if a[0] != b[0] {
        (a[0] as u32) < (b[0] as u32)
    } else {
        text_lt(a.drop_first(), b.drop_first())
    }
}

/// `a` is `b` or comes before it.
pub open spec fn text_le(a: Seq<char>, b: Seq<char>) -> bool {
    a == b || text_lt(a, b)
}

/// Whether the character is whitespace.
pub fn whitespace(c: char) -> (r: bool)
    ensures
        r == is_whitespace(c),
{
    let u: u32 = c as u32;
    (0x09 <= u && u <= 0x0d) || u == 0x20 || u == 0x85 || u == 0xa0 || u == 0x1680 || (0x2000 <= u
        && u <= 0x200a) || u == 0x2028 || u == 0x2029 || u == 0x202f || u == 0x205f || u == 0x3000
}

/// Whether the character parts two lexemes.
pub fn separator(c: char) -> (r: bool)
    ensures
        r == is_separator(c),
{
    whitespace(c) || c == '(' || c == ')'
}

/// The characters of a text, one by one.
pub fn chars_of(s: &str) -> (chars: Vec<char>)
    ensures
        chars@ == s@,
{
    let mut chars: Vec<char> = Vec::new();
    for c in it: s.chars()
        invariant
            it.seq() == s@,
            chars@ == s@.take(it.index() as int),
    {
        chars.push(c);
    }
    chars
}

/// The text that the first `n` of the characters spell.
pub fn text_of(chars: &Vec<char>, n: usize) -> (s: String)
    requires
        n <= chars.len(),
    ensures
        s@ == chars@.take(n as int),
{
    let mut s = String::new();
    let mut i: usize = 0;
    while i < n
        invariant
            i <= n <= chars.len(),
            s@ == chars@.take(i as int),
        decreases n - i,
    {
        s.push(chars[i]);
        i += 1;
    }
    s
}

/// Whether the characters spell the word.
pub fn spells(chars: &Vec<char>, word: &str) -> (r: bool)
    ensures
        r == (chars@ == word@),
{
    let mut i: usize = 0;
    for c in it: word.chars()
        invariant
            it.seq() == word@,
            i == it.index(),
            i <= chars.len(),
            forall|k: int| 0 <= k < i ==> chars@[k] == word@[k],
    {
        if i >= chars.len() || chars[i] != c {
            return false;
        }
        i += 1;
    }
    assert(i == chars.len() ==> chars@ =~= word@);
    i == chars.len()
}

/// Splits a line into its lexemes.
pub fn split(line: &str) -> (words: Vec<String>)
    ensures
        words@.len() == lexemes(line@).len(),
        forall|k: int| 0 <= k < words@.len() ==> (#[trigger] words@[k])@ == lexemes(line@)[k],
{
    let mut words: Vec<String> = Vec::new();
    let mut cur = String::new();
    let mut pending = false;
    let ghost mut done: Seq<Seq<char>> = Seq::empty();
    assert(line@.skip(0) =~= line@);
    for c in it: line.chars()
        invariant
            it.seq() == line@,
            pending == (cur@.len() > 0),
            done.len() == words@.len(),
            forall|k: int| 0 <= k < words@.len() ==> (#[trigger] words@[k])@ == done[k],
            lexemes(line@) == done + lexemes_after(cur@, line@.skip(it.index() as int)),
    {
        let ghost rest = line@.skip(it.index() as int);
        assert(rest.drop_first() =~= line@.skip(it.index() + 1));
        if separator(c) {
            if pending {
                proof {
                    done = done.push(cur@);
                }
                words.push(cur);
                cur = String::new();
                pending = false;
            } else {
                assert(cur@ =~= Seq::<char>::empty());
            }
        } else {
            cur.push(c);
            pending = true;
        }
    }
    if pending {
        words.push(cur);
    }
    words
}

/// The text without the whitespace at its end.
pub fn trimmed(s: &str) -> (r: String)
    ensures
        r@ == trim_end(s@),
{
    let chars = chars_of(s);
    let mut n: usize = chars.len();
    assert(chars@.take(n as int) =~= chars@);
    while n > 0 && whitespace(chars[n - 1])
        invariant
            n <= chars.len(),
            trim_end(chars@) == trim_end(chars@.take(n as int)),
        decreases n,
    {
        assert(chars@.take(n as int).drop_last() =~= chars@.take(n - 1));
        n -= 1;
    }
    text_of(&chars, n)
}

/// Whether the first text comes strictly before the second.
pub fn before(a: &str, b: &str) -> (r: bool)
    ensures
        r == text_lt(a@, b@),
{
    let x = chars_of(a);
    let y = chars_of(b);
    let mut i: usize = 0;
    assert(x@.skip(0) =~= x@ && y@.skip(0) =~= y@);
    while i < x.len() && i < y.len() && x[i] == y[i]
        invariant
            i <= x.len(),
            i <= y.len(),
            text_lt(x@, y@) == text_lt(x@.skip(i as int), y@.skip(i as int)),
        decreases x.len() - i,
    {
        assert(x@.skip(i as int).drop_first() =~= x@.skip(i + 1));
        assert(y@.skip(i as int).drop_first() =~= y@.skip(i + 1));
        i += 1;
    }
    if i >= y.len() {
        false
    } else if i >= x.len() {
        true
    } else {
        (x[i] as u32) < (y[i] as u32)
    }
}

} // verus!
