//! Word wrapping of an encoded payload, and its removal.

use crate::charset::{
    all_whitespace, is_whitespace, is_whitespace_char, no_delimiter, no_whitespace,
};
use crate::text::chars_of;
use vstd::prelude::*;

verus! {

/// The number of characters in a word of wrapped text.
pub const WORD_LENGTH: usize = 15;

/// `s` in words of `WORD_LENGTH` characters with a single space between
/// them. The last word may be shorter; a text of one word is left as it is.
pub open spec fn formatted(s: Seq<char>) -> Seq<char>
    decreases s.len(),
{
    if s.len() <= WORD_LENGTH {
        s
    } else {
        s.take(WORD_LENGTH as int).push(' ') + formatted(s.skip(WORD_LENGTH as int))
    }
}

/// The test that a character passes when it means something.
pub open spec fn significant() -> spec_fn(char) -> bool {
    |c: char| !is_whitespace(c)
}

/// `s` without its insignificant characters; the others stay in order.
pub open spec fn stripped(s: Seq<char>) -> Seq<char> {
    s.filter(significant())
}

/// Stripping a text with one more character at its end.
pub proof fn lemma_stripped_push(s: Seq<char>, c: char)
    ensures
        stripped(s.push(c)) == if is_whitespace(c) {
            stripped(s)
        } else {
            stripped(s).push(c)
        },
{
    reveal(Seq::filter);
    assert(s.push(c).drop_last() =~= s);
}

/// Stripping goes through a concatenation.
pub proof fn lemma_stripped_concat(a: Seq<char>, b: Seq<char>)
    ensures
        stripped(a + b) == stripped(a) + stripped(b),
{
    Seq::filter_distributes_over_add(a, b, significant());
}

/// Stripping leaves a text without insignificant characters as it is.
pub proof fn lemma_stripped_plain(s: Seq<char>)
    requires
        no_whitespace(s),
    ensures
        stripped(s) == s,
    decreases s.len(),
{
    if s.len() == 0 {
        reveal(Seq::filter);
    } else {
        let front = s.drop_last();
        lemma_stripped_plain(front);
        assert(s =~= front.push(s.last()));
        lemma_stripped_push(front, s.last());
    }
}

/// Stripping a text of insignificant characters leaves nothing.
pub proof fn lemma_stripped_blank(s: Seq<char>)
    requires
        all_whitespace(s),
    ensures
        stripped(s) == Seq::<char>::empty(),
    decreases s.len(),
{
    if s.len() == 0 {
        reveal(Seq::filter);
    } else {
        let front = s.drop_last();
        lemma_stripped_blank(front);
        assert(s =~= front.push(s.last()));
        lemma_stripped_push(front, s.last());
    }
}

/// Wrapping a text with one more character at its end: the character is
/// appended, after a space where it begins a new word.
pub proof fn lemma_formatted_push(s: Seq<char>, c: char)
    ensures
        formatted(s.push(c)) == if s.len() != 0 && s.len() % (WORD_LENGTH as nat) == 0 {
            formatted(s).push(' ').push(c)
        } else {
            formatted(s).push(c)
        },
    decreases s.len(),
{
    let w = WORD_LENGTH as int;
    let t = s.push(c);
    if s.len() == w {
        assert(formatted(t.skip(w)) == seq![c]);
    } else if s.len() > w {
        let rest = s.skip(w);
        lemma_formatted_push(rest, c);
        assert(t.skip(w) =~= rest.push(c));
    }
}

/// Wrapping adds nothing but spaces: what is left after stripping the
/// wrapped text is what is left after stripping the text itself.
pub proof fn lemma_strip_undoes_format(s: Seq<char>)
    ensures
        stripped(formatted(s)) == stripped(s),
    decreases s.len(),
{
    let w = WORD_LENGTH as int;
    if s.len() > w {
        let word = s.take(w);
        let rest = s.skip(w);
        lemma_strip_undoes_format(rest);
        lemma_stripped_concat(word.push(' '), formatted(rest));
        lemma_stripped_push(word, ' ');
        lemma_stripped_concat(word, rest);
        assert(word + rest =~= s);
    }
}

/// Stripping a wrapped text and wrapping it again gives the same wrapped
/// text, for every text that holds no insignificant character of its own.
pub proof fn lemma_format_idempotent(s: Seq<char>)
    requires
        no_whitespace(s),
    ensures
        stripped(formatted(s)) == s,
        formatted(stripped(formatted(s))) == formatted(s),
{
    lemma_strip_undoes_format(s);
    lemma_stripped_plain(s);
}

/// Wrapping brings no delimiter into a text that has none.
pub proof fn lemma_formatted_no_delimiter(s: Seq<char>)
    requires
        no_delimiter(s),
    ensures
        no_delimiter(formatted(s)),
    decreases s.len(),
{
    if s.len() > WORD_LENGTH {
        lemma_formatted_no_delimiter(s.skip(WORD_LENGTH as int));
    }
}

/// Wraps `slate` into words of `WORD_LENGTH` characters. It counts
/// characters, not bytes.
pub fn format_slate(slate: &str) -> (formatter: String)
    ensures
        formatter@ == formatted(slate@),
{
    let chars = chars_of(slate);
    let mut formatter: String = String::new();
    let mut i: usize = 0;
    while i < chars.len()
        invariant
            i <= chars.len(),
            chars@ == slate@,
            formatter@ == formatted(chars@.take(i as int)),
        decreases chars.len() - i,
    {
        let c = chars[i];
        proof {
            lemma_formatted_push(chars@.take(i as int), c);
            assert(chars@.take(i + 1) =~= chars@.take(i as int).push(c));
        }
        if i != 0 && i % WORD_LENGTH == 0 {
            formatter.push(' ');
        }
        formatter.push(c);
        i += 1;
    }
    assert(chars@.take(i as int) =~= chars@);
    formatter
}

/// Removes every insignificant character from `text`.
pub fn strip_formatting(text: &str) -> (clean: String)
    ensures
        clean@ == stripped(text@),
{
    let mut clean: String = String::new();
    for c in it: text.chars()
        invariant
            it.seq() == text@,
            clean@ == stripped(text@.take(it.index())),
    {
        proof {
            lemma_stripped_push(text@.take(it.index()), c);
            assert(text@.take(it.index() + 1) =~= text@.take(it.index()).push(c));
        }
        if !is_whitespace_char(c) {
            clean.push(c);
        }
    }
    assert(text@.take(text@.len() as int) =~= text@);
    clean
}

} // verus!
