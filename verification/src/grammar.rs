//! The grammar of the two framing tokens, the one that opens an armored
//! text and the one that closes it.
//!
//! A token is an opening word (`BEGIN` or `END`), then the keyword
//! `SLATEPACK`, with insignificant characters allowed around the two.
//! In the qualified form the two words are kept apart by insignificant
//! characters, among which a format name of ASCII letters and digits may
//! stand. In the bare form the keyword follows the opening word at once.

use crate::charset::{
    all_alphanumeric, all_whitespace, is_alphanumeric, is_alphanumeric_char, is_whitespace,
    is_whitespace_char, no_delimiter,
};
use crate::error::ArmorError;
use crate::text::chars_of;
use vstd::prelude::*;

verus! {

/// The two forms of framing that armored text is written in.
#[derive(Clone, Copy, Debug, PartialEq, Eq, Structural)]
pub enum FrameVariant {
    /// `BEGIN SLATEPACK. .. . END SLATEPACK.`: the form for new text.
    Qualified,
    /// `BEGINSLATEPACK. .. . ENDSLATEPACK.`: the form of older writers.
    Bare,
}

/// The keyword that ends both tokens.
pub open spec fn keyword() -> Seq<char> {
    "SLATEPACK"@
}

/// The word that begins the opening token.
pub open spec fn header_opening() -> Seq<char> {
    "BEGIN"@
}

/// The word that begins the closing token.
pub open spec fn footer_opening() -> Seq<char> {
    "END"@
}

/// `mid` read as what keeps the two words of a qualified token apart:
/// insignificant characters `gap`, of which there is one at least, then a
/// format name `name`, then insignificant characters `rest_gap`. The name
/// may be missing; where it is there, `rest_gap` is not empty.
pub open spec fn separator_parts(
    mid: Seq<char>,
    gap: Seq<char>,
    name: Seq<char>,
    rest_gap: Seq<char>,
) -> bool {
    &&& mid == gap + name + rest_gap
    &&& gap.len() > 0
    &&& all_whitespace(gap)
    &&& all_alphanumeric(name)
    &&& all_whitespace(rest_gap)
    &&& name.len() > 0 ==> rest_gap.len() > 0
}

/// `mid` can keep the two words of a qualified token apart.
pub open spec fn is_separator(mid: Seq<char>) -> bool {
    exists|gap: Seq<char>, name: Seq<char>, rest_gap: Seq<char>|
        separator_parts(mid, gap, name, rest_gap)
}

/// `s` read as a framing token: insignificant characters `lead`, the
/// opening word, `mid`, the keyword, insignificant characters `trail`.
/// In the bare form `mid` is empty, in the qualified form a separator.
pub open spec fn frame_parts(
    s: Seq<char>,
    opening: Seq<char>,
    lead: Seq<char>,
    mid: Seq<char>,
    trail: Seq<char>,
) -> bool {
    &&& s == lead + opening + mid + keyword() + trail
    &&& all_whitespace(lead)
    &&& all_whitespace(trail)
    &&& mid.len() == 0 || is_separator(mid)
}

/// `s` is a framing token that begins with the word `opening`, in either
/// form.
pub open spec fn is_frame_token(s: Seq<char>, opening: Seq<char>) -> bool {
    exists|lead: Seq<char>, mid: Seq<char>, trail: Seq<char>|
        frame_parts(s, opening, lead, mid, trail)
}

/// `s` is an accepted opening token.
pub open spec fn is_header(s: Seq<char>) -> bool {
    is_frame_token(s, header_opening())
}

/// `s` is an accepted closing token.
pub open spec fn is_footer(s: Seq<char>) -> bool {
    is_frame_token(s, footer_opening())
}

/// `word` stands in `s` at some place.
pub open spec fn contains_text(s: Seq<char>, word: Seq<char>) -> bool {
    exists|at: int| 0 <= at && at + word.len() <= s.len() && #[trigger] s.subrange(
        at,
        at + word.len(),
    ) == word
}

/// `a` is where the insignificant characters in front of `s` end.
spec fn is_core_start(s: Seq<char>, a: int) -> bool {
    &&& 0 <= a <= s.len()
    &&& all_whitespace(s.take(a))
    &&& a < s.len() ==> !is_whitespace(s[a])
}

/// `b` is where the insignificant characters at the end of `s` begin.
spec fn is_core_end(s: Seq<char>, b: int) -> bool {
    &&& 0 <= b <= s.len()
    &&& all_whitespace(s.skip(b))
    &&& 0 < b ==> !is_whitespace(s[b - 1])
}

/// What is asked of the word that begins a token: it is not empty and does
/// not begin with an insignificant character.
spec fn is_opening_word(opening: Seq<char>) -> bool {
    opening.len() > 0 && !is_whitespace(opening[0])
}

/// What the three words of the grammar hold.
proof fn lemma_words()
    ensures
        keyword().len() == 9,
        !is_whitespace(keyword()[8]),
        all_alphanumeric(keyword()),
        header_opening().len() == 5,
        footer_opening().len() == 3,
        is_opening_word(header_opening()),
        is_opening_word(footer_opening()),
        no_delimiter(header_opening()),
        no_delimiter(footer_opening()),
{
    reveal_strlit("SLATEPACK");
    reveal_strlit("BEGIN");
    reveal_strlit("END");
}

/// Where `s` is `x` between insignificant characters, and `x` neither
/// begins nor ends with one, the ends of the padding are the ends of `x`.
proof fn lemma_padded_core(
    s: Seq<char>,
    lead: Seq<char>,
    x: Seq<char>,
    trail: Seq<char>,
    a: int,
    b: int,
)
    requires
        s == lead + x + trail,
        all_whitespace(lead),
        all_whitespace(trail),
        x.len() > 0,
        !is_whitespace(x[0]),
        !is_whitespace(x[x.len() - 1]),
        is_core_start(s, a),
        is_core_end(s, b),
    ensures
        a == lead.len(),
        b == lead.len() + x.len(),
        s.subrange(a, b) == x,
{
    let n = lead.len() as int;
    let e = n + x.len();
    if a > n {
        assert(s.take(a)[n] == s[n]);
    }
    if b > e {
        assert(s[b - 1] == trail[b - 1 - e]);
    }
    if b < e {
        assert(s.skip(b)[e - 1 - b] == s[e - 1]);
    }
    assert(s.subrange(a, b) =~= x);
}

/// Where `s` holds insignificant characters only, the padding in front
/// covers it all, and so does the padding at the end.
proof fn lemma_blank_core(s: Seq<char>, a: int, b: int)
    requires
        all_whitespace(s),
        is_core_start(s, a),
        is_core_end(s, b),
    ensures
        a == s.len(),
        b == 0,
{
}

/// A separator is told by the ends of its padding: it begins with an
/// insignificant character, and what stands between the paddings, if
/// anything, is a format name with an insignificant character behind it.
proof fn lemma_separator_shape(mid: Seq<char>, a: int, b: int)
    requires
        is_core_start(mid, a),
        is_core_end(mid, b),
    ensures
        is_separator(mid) <==> (0 < a && (a == mid.len() || (b < mid.len() && all_alphanumeric(
            mid.subrange(a, b),
        )))),
{
    if is_separator(mid) {
        let (gap, name, rest_gap) = choose|gap: Seq<char>, name: Seq<char>, rest_gap: Seq<char>|
            separator_parts(mid, gap, name, rest_gap);
        if name.len() == 0 {
            assert(all_whitespace(mid));
            lemma_blank_core(mid, a, b);
        } else {
            lemma_padded_core(mid, gap, name, rest_gap, a, b);
        }
    }
    if 0 < a && a == mid.len() {
        let none = Seq::<char>::empty();
        assert(mid.take(a) =~= mid);
        assert(separator_parts(mid, mid, none, none));
    }
    if 0 < a && a < mid.len() && b < mid.len() && all_alphanumeric(mid.subrange(a, b)) {
        let gap = mid.take(a);
        let name = mid.subrange(a, b);
        let rest_gap = mid.skip(b);
        assert(a < b) by {
            if b <= a {
                assert(mid.skip(b)[a - b] == mid[a]);
            }
        }
        assert(mid =~= gap + name + rest_gap);
        assert(separator_parts(mid, gap, name, rest_gap));
    }
}

/// A framing token is told by the ends of its padding: between them stand
/// the opening word and the keyword, with nothing or a separator between
/// the two.
proof fn lemma_frame_token_shape(s: Seq<char>, opening: Seq<char>, a: int, b: int)
    requires
        is_opening_word(opening),
        is_core_start(s, a),
        is_core_end(s, b),
    ensures
        is_frame_token(s, opening) <==> {
            let k = opening.len() as int;
            let m = keyword().len() as int;
            &&& a + k + m <= b
            &&& s.subrange(a, a + k) == opening
            &&& s.subrange(b - m, b) == keyword()
            &&& (a + k + m == b || is_separator(s.subrange(a + k, b - m)))
        },
{
    lemma_words();
    let k = opening.len() as int;
    let m = keyword().len() as int;
    if is_frame_token(s, opening) {
        let (lead, mid, trail) = choose|lead: Seq<char>, mid: Seq<char>, trail: Seq<char>|
            frame_parts(s, opening, lead, mid, trail);
        let x = opening + mid + keyword();
        assert(s =~= lead + x + trail);
        lemma_padded_core(s, lead, x, trail, a, b);
        assert(s.subrange(a, a + k) =~= opening);
        assert(s.subrange(b - m, b) =~= keyword());
        assert(s.subrange(a + k, b - m) =~= mid);
    }
    if a + k + m <= b && s.subrange(a, a + k) == opening && s.subrange(b - m, b) == keyword() && (a
        + k + m == b || is_separator(s.subrange(a + k, b - m))) {
        let lead = s.take(a);
        let mid = s.subrange(a + k, b - m);
        let trail = s.skip(b);
        assert(s =~= lead + s.subrange(a, a + k) + mid + s.subrange(b - m, b) + trail);
        assert(frame_parts(s, opening, lead, mid, trail));
    }
}

/// A framing token stays one when insignificant characters are put in
/// front of it and behind it.
pub proof fn lemma_frame_token_padded(
    s: Seq<char>,
    opening: Seq<char>,
    before: Seq<char>,
    after: Seq<char>,
)
    requires
        is_frame_token(s, opening),
        all_whitespace(before),
        all_whitespace(after),
    ensures
        is_frame_token(before + s + after, opening),
{
    let (lead, mid, trail) = choose|lead: Seq<char>, mid: Seq<char>, trail: Seq<char>|
        frame_parts(s, opening, lead, mid, trail);
    let lead2 = before + lead;
    let trail2 = trail + after;
    assert(all_whitespace(lead2));
    assert(all_whitespace(trail2));
    assert(before + s + after =~= lead2 + opening + mid + keyword() + trail2);
    assert(frame_parts(before + s + after, opening, lead2, mid, trail2));
}

/// The opening word and the keyword make a token, whether nothing stands
/// between them or insignificant characters do, with or without a format
/// name of ASCII letters and digits among them.
pub proof fn lemma_frame_token_forms(
    opening: Seq<char>,
    gap: Seq<char>,
    name: Seq<char>,
    rest_gap: Seq<char>,
)
    requires
        gap.len() > 0,
        all_whitespace(gap),
        name.len() > 0,
        all_alphanumeric(name),
        rest_gap.len() > 0,
        all_whitespace(rest_gap),
    ensures
        is_frame_token(opening + keyword(), opening),
        is_frame_token(opening + gap + keyword(), opening),
        is_frame_token(opening + gap + name + rest_gap + keyword(), opening),
{
    let none = Seq::<char>::empty();
    assert(frame_parts(opening + keyword(), opening, none, none, none));

    assert(separator_parts(gap, gap, none, none));
    assert(frame_parts(opening + gap + keyword(), opening, none, gap, none));

    let mid = gap + name + rest_gap;
    assert(separator_parts(mid, gap, name, rest_gap));
    assert(opening + gap + name + rest_gap + keyword() =~= none + opening + mid + keyword() + none);
    assert(frame_parts(opening + gap + name + rest_gap + keyword(), opening, none, mid, none));
}

/// A text in which the keyword stands nowhere is no framing token.
pub proof fn lemma_keyword_required(s: Seq<char>, opening: Seq<char>)
    requires
        !contains_text(s, keyword()),
    ensures
        !is_frame_token(s, opening),
{
    if is_frame_token(s, opening) {
        let (lead, mid, trail) = choose|lead: Seq<char>, mid: Seq<char>, trail: Seq<char>|
            frame_parts(s, opening, lead, mid, trail);
        let at = (lead.len() + opening.len() + mid.len()) as int;
        assert(s.subrange(at, at + keyword().len()) =~= keyword());
    }
}

/// A framing token holds no delimiter, so the delimiter that follows it is
/// the first one that a reader meets.
pub proof fn lemma_token_no_delimiter(s: Seq<char>)
    requires
        is_header(s) || is_footer(s),
    ensures
        no_delimiter(s),
{
    lemma_words();
    if is_header(s) {
        lemma_frame_token_no_delimiter(s, header_opening());
    } else {
        lemma_frame_token_no_delimiter(s, footer_opening());
    }
}

/// A framing token holds a delimiter only where its opening word does.
proof fn lemma_frame_token_no_delimiter(s: Seq<char>, opening: Seq<char>)
    requires
        is_frame_token(s, opening),
        no_delimiter(opening),
    ensures
        no_delimiter(s),
{
    lemma_words();
}

/// The end of the insignificant characters that begin at `from`, looking
/// no further than `to`.
fn skip_whitespace(chars: &Vec<char>, from: usize, to: usize) -> (r: usize)
    requires
        from <= to <= chars.len(),
    ensures
        from <= r <= to,
        is_core_start(chars@.subrange(from as int, to as int), r - from),
{
    let ghost part = chars@.subrange(from as int, to as int);
    let mut i: usize = from;
    while i < to && is_whitespace_char(chars[i])
        invariant
            from <= i <= to <= chars.len(),
            part == chars@.subrange(from as int, to as int),
            all_whitespace(part.take(i - from)),
        decreases to - i,
    {
        i += 1;
    }
    i
}

/// The start of the insignificant characters that end at `to`, looking
/// no further back than `from`.
fn skip_whitespace_back(chars: &Vec<char>, from: usize, to: usize) -> (r: usize)
    requires
        from <= to <= chars.len(),
    ensures
        from <= r <= to,
        is_core_end(chars@.subrange(from as int, to as int), r - from),
{
    let ghost part = chars@.subrange(from as int, to as int);
    let mut i: usize = to;
    while i > from && is_whitespace_char(chars[i - 1])
        invariant
            from <= i <= to <= chars.len(),
            part == chars@.subrange(from as int, to as int),
            all_whitespace(part.skip(i - from)),
        decreases i,
    {
        assert(all_whitespace(part.skip(i - 1 - from))) by {
            assert forall|j: int| 0 <= j < part.skip(i - 1 - from).len() implies is_whitespace(
                #[trigger] part.skip(i - 1 - from)[j],
            ) by {
                if j > 0 {
                    assert(part.skip(i - from)[j - 1] == part[j + i - 1 - from]);
                }
            }
        }
        i -= 1;
    }
    i
}

/// Tells whether `word` stands in `chars` at `at`; `at + word.len()` must
/// not pass the end of `chars`.
fn has_word_at(chars: &Vec<char>, at: usize, word: &Vec<char>) -> (r: bool)
    requires
        at + word.len() <= chars.len(),
    ensures
        r == (chars@.subrange(at as int, at + word.len()) == word@),
{
    let ghost part = chars@.subrange(at as int, at + word.len());
    let mut i: usize = 0;
    while i < word.len()
        invariant
            i <= word.len(),
            at + word.len() <= chars.len(),
            part == chars@.subrange(at as int, at + word.len()),
            part.take(i as int) == word@.take(i as int),
        decreases word.len() - i,
    {
        if chars[at + i] != word[i] {
            return false;
        }
        i += 1;
    }
    assert(part.take(i as int) == part);
    assert(word@.take(i as int) == word@);
    true
}

/// Tells whether `chars[from..to]` holds ASCII letters and digits only.
fn is_name(chars: &Vec<char>, from: usize, to: usize) -> (r: bool)
    requires
        from <= to <= chars.len(),
    ensures
        r == all_alphanumeric(chars@.subrange(from as int, to as int)),
{
    let ghost part = chars@.subrange(from as int, to as int);
    let mut i: usize = from;
    while i < to
        invariant
            from <= i <= to <= chars.len(),
            part == chars@.subrange(from as int, to as int),
            forall|j: int| 0 <= j < i - from ==> is_alphanumeric(#[trigger] part[j]),
        decreases to - i,
    {
        if !is_alphanumeric_char(chars[i]) {
            assert(!is_alphanumeric(part[i - from]));
            return false;
        }
        i += 1;
    }
    true
}

/// Tells whether `chars[from..to]`, which is not empty, can keep the two
/// words of a qualified token apart.
fn is_separator_text(chars: &Vec<char>, from: usize, to: usize) -> (r: bool)
    requires
        from < to <= chars.len(),
    ensures
        r == is_separator(chars@.subrange(from as int, to as int)),
{
    let ghost mid = chars@.subrange(from as int, to as int);
    let name_start = skip_whitespace(chars, from, to);
    let name_end = skip_whitespace_back(chars, from, to);
    proof {
        lemma_separator_shape(mid, name_start - from, name_end - from);
    }
    if name_start == from {
        return false;
    }
    if name_start == to {
        return true;
    }
    if name_end == to {
        return false;
    }
    assert(name_start < name_end) by {
        if name_end <= name_start {
            assert(mid.skip(name_end - from)[name_start - name_end] == mid[name_start - from]);
        }
    }
    assert(mid.subrange(name_start - from, name_end - from) =~= chars@.subrange(
        name_start as int,
        name_end as int,
    ));
    is_name(chars, name_start, name_end)
}

/// Tells whether `chars` is a framing token that begins with `opening`.
fn is_frame_token_text(chars: &Vec<char>, opening: &Vec<char>) -> (r: bool)
    requires
        is_opening_word(opening@),
    ensures
        r == is_frame_token(chars@, opening@),
{
    let word = chars_of("SLATEPACK");
    let start = skip_whitespace(chars, 0, chars.len());
    let end = skip_whitespace_back(chars, 0, chars.len());
    proof {
        lemma_words();
        assert(chars@.subrange(0, chars.len() as int) =~= chars@);
        lemma_frame_token_shape(chars@, opening@, start as int, end as int);
    }
    if end < start || end - start < opening.len() || end - start - opening.len() < word.len() {
        return false;
    }
    if !has_word_at(chars, start, opening) {
        return false;
    }
    if !has_word_at(chars, end - word.len(), &word) {
        return false;
    }
    let from = start + opening.len();
    let to = end - word.len();
    if from == to {
        return true;
    }
    is_separator_text(chars, from, to)
}

/// Accepts `header` where it is an opening token, in either form, and
/// refuses it with `InvalidHeader` where it is not.
pub fn check_header(header: &str) -> (r: Result<(), ArmorError>)
    ensures
        r == if is_header(header@) {
            Ok::<(), ArmorError>(())
        } else {
            Err::<(), ArmorError>(ArmorError::InvalidHeader)
        },
{
    let framing = chars_of(header);
    let opening = chars_of("BEGIN");
    proof {
        lemma_words();
    }
    if is_frame_token_text(&framing, &opening) {
        Ok(())
    } else {
        Err(ArmorError::InvalidHeader)
    }
}

/// Accepts `footer` where it is a closing token, in either form, and
/// refuses it with `InvalidFooter` where it is not.
pub fn check_footer(footer: &str) -> (r: Result<(), ArmorError>)
    ensures
        r == if is_footer(footer@) {
            Ok::<(), ArmorError>(())
        } else {
            Err::<(), ArmorError>(ArmorError::InvalidFooter)
        },
{
    let framing = chars_of(footer);
    let opening = chars_of("END");
    proof {
        lemma_words();
    }
    if is_frame_token_text(&framing, &opening) {
        Ok(())
    } else {
        Err(ArmorError::InvalidFooter)
    }
}

} // verus!
