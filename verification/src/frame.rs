//! Parting an armored text into its opening token, its payload segment and
//! its closing token.
//!
//! The opening token ends at the first delimiter and the payload segment at
//! the second. The closing token ends at the third, or at the end of the
//! text where there is no third; what follows a third delimiter is not read.

use crate::charset::{no_delimiter, DELIMITER};
use crate::error::ArmorError;
use crate::grammar::{check_footer, check_header, is_footer, is_header};
use crate::text::{chars_of, text_of};
use vstd::prelude::*;

verus! {

/// The three segments of an armored text, without their delimiters.
#[derive(Clone, Debug, PartialEq, Eq)]
pub struct Frame {
    /// What stands before the first delimiter.
    pub header: String,
    /// What stands between the first delimiter and the second.
    pub payload: String,
    /// What stands behind the second delimiter, up to the third.
    pub footer: String,
}

/// The characters of the three segments of an armored text.
pub struct FrameText {
    /// What stands before the first delimiter.
    pub header: Seq<char>,
    /// What stands between the first delimiter and the second.
    pub payload: Seq<char>,
    /// What stands behind the second delimiter, up to the third.
    pub footer: Seq<char>,
}

impl View for Frame {
    type V = FrameText;

    open spec fn view(&self) -> FrameText {
        FrameText { header: self.header@, payload: self.payload@, footer: self.footer@ }
    }
}

/// The number of characters of `s` before its first delimiter: all of them
/// where `s` has no delimiter.
pub open spec fn segment_len(s: Seq<char>) -> nat
    decreases s.len(),
{
    if s.len() == 0 || s[0] == DELIMITER {
        0
    } else {
        1 + segment_len(s.drop_first())
    }
}

/// What stands in `s` before its first delimiter.
pub open spec fn first_segment(s: Seq<char>) -> Seq<char> {
    s.take(segment_len(s) as int)
}

/// `s` has a delimiter.
pub open spec fn has_delimiter(s: Seq<char>) -> bool {
    segment_len(s) < s.len()
}

/// What stands in `s` behind its first delimiter.
pub open spec fn after_delimiter(s: Seq<char>) -> Seq<char> {
    s.skip(segment_len(s) as int + 1)
}

/// `s` has two delimiters at least.
pub open spec fn has_two_delimiters(s: Seq<char>) -> bool {
    exists|i: int, j: int| 0 <= i < j < s.len() && s[i] == DELIMITER && s[j] == DELIMITER
}

/// The segments of `text`, or why it has none. A text without two
/// delimiters is malformed, whatever else it holds; with them, the opening
/// token is looked at first and the closing token second.
pub open spec fn parsed_frame(text: Seq<char>) -> Result<FrameText, ArmorError> {
    let header = first_segment(text);
    let rest = after_delimiter(text);
    let payload = first_segment(rest);
    let footer = first_segment(after_delimiter(rest));
    if !has_delimiter(text) || !has_delimiter(rest) {
        Err(ArmorError::MalformedArmor)
    } else if !is_header(header) {
        Err(ArmorError::InvalidHeader)
    } else if !is_footer(footer) {
        Err(ArmorError::InvalidFooter)
    } else {
        Ok(FrameText { header, payload, footer })
    }
}

/// `at` is the place of the first delimiter of `s`, or the length of `s`
/// where it has none.
spec fn is_segment_end(s: Seq<char>, at: int) -> bool {
    &&& 0 <= at <= s.len()
    &&& no_delimiter(s.take(at))
    &&& at < s.len() ==> s[at] == DELIMITER
}

/// The first segment ends where the first delimiter stands, and nowhere
/// else.
proof fn lemma_segment_end(s: Seq<char>, at: int)
    ensures
        is_segment_end(s, at) <==> at == segment_len(s),
    decreases s.len(),
{
    if s.len() == 0 || s[0] == DELIMITER {
        if is_segment_end(s, at) && at > 0 {
            assert(s.take(at)[0] == s[0]);
        }
    } else {
        let rest = s.drop_first();
        lemma_segment_end(rest, at - 1);
        if is_segment_end(s, at) {
            assert(no_delimiter(rest.take(at - 1))) by {
                assert forall|i: int| 0 <= i < at - 1 implies #[trigger] rest.take(at - 1)[i]
                    != DELIMITER by {
                    assert(s.take(at)[i + 1] == s[i + 1]);
                }
            }
        }
        if at == segment_len(s) {
            assert(no_delimiter(s.take(at))) by {
                assert forall|i: int| 0 <= i < at implies #[trigger] s.take(at)[i]
                    != DELIMITER by {
                    if i > 0 {
                        assert(rest.take(at - 1)[i - 1] == s[i]);
                    }
                }
            }
        }
    }
}

/// A text is malformed exactly when it has fewer than two delimiters.
pub proof fn lemma_malformed_armor(text: Seq<char>)
    ensures
        parsed_frame(text) == Err::<FrameText, ArmorError>(ArmorError::MalformedArmor)
            <==> !has_two_delimiters(text),
{
    let h = segment_len(text) as int;
    let rest = after_delimiter(text);
    let p = segment_len(rest) as int;
    lemma_segment_end(text, h);
    lemma_segment_end(rest, p);
    if has_two_delimiters(text) && !(has_delimiter(text) && has_delimiter(rest)) {
        let (i, j) = choose|i: int, j: int|
            0 <= i < j < text.len() && text[i] == DELIMITER && text[j] == DELIMITER;
        if i < h {
            assert(text.take(h)[i] == text[i]);
        }
        if has_delimiter(text) {
            assert(rest.take(p)[j - h - 1] == text[j]);
        }
    }
}

/// A text made of three segments without delimiters, each with a delimiter
/// behind it, parts into those segments, whatever follows the third
/// delimiter.
pub proof fn lemma_segments(
    header: Seq<char>,
    payload: Seq<char>,
    footer: Seq<char>,
    rest: Seq<char>,
)
    requires
        no_delimiter(header),
        no_delimiter(payload),
        no_delimiter(footer),
    ensures
        ({
            let text = header.push(DELIMITER) + payload.push(DELIMITER) + footer.push(DELIMITER)
                + rest;
            &&& has_delimiter(text)
            &&& first_segment(text) == header
            &&& has_delimiter(after_delimiter(text))
            &&& first_segment(after_delimiter(text)) == payload
            &&& first_segment(after_delimiter(after_delimiter(text))) == footer
        }),
{
    let text = header.push(DELIMITER) + payload.push(DELIMITER) + footer.push(DELIMITER) + rest;
    let h = header.len() as int;
    lemma_segment_end(text, h);
    let second = after_delimiter(text);
    let p = payload.len() as int;
    lemma_segment_end(second, p);
    let third = after_delimiter(second);
    let f = footer.len() as int;
    lemma_segment_end(third, f);
}

/// The place of the first delimiter at or behind `from`, or the length of
/// `chars` where there is none.
fn find_delimiter(chars: &Vec<char>, from: usize) -> (r: usize)
    requires
        from <= chars.len(),
    ensures
        from <= r <= chars.len(),
        r - from == segment_len(chars@.skip(from as int)),
{
    let ghost part = chars@.skip(from as int);
    let mut i: usize = from;
    while i < chars.len() && chars[i] != DELIMITER
        invariant
            from <= i <= chars.len(),
            part == chars@.skip(from as int),
            no_delimiter(part.take(i - from)),
        decreases chars.len() - i,
    {
        i += 1;
    }
    proof {
        lemma_segment_end(part, i - from);
    }
    i
}

/// Parts `text` into its three segments and validates the two tokens.
/// Fails with `MalformedArmor` where `text` has fewer than two delimiters,
/// else with `InvalidHeader` where the opening token is not accepted, else
/// with `InvalidFooter` where the closing token is not.
pub fn parse_frame(text: &str) -> (r: Result<Frame, ArmorError>)
    ensures
        match r {
            Ok(frame) => parsed_frame(text@) == Ok::<FrameText, ArmorError>(frame@),
            Err(e) => parsed_frame(text@) == Err::<FrameText, ArmorError>(e),
        },
{
    let chars = chars_of(text);
    let header_end = find_delimiter(&chars, 0);
    assert(chars@.skip(0) =~= text@);
    if header_end == chars.len() {
        return Err(ArmorError::MalformedArmor);
    }
    let payload_start = header_end + 1;
    let payload_end = find_delimiter(&chars, payload_start);
    if payload_end == chars.len() {
        return Err(ArmorError::MalformedArmor);
    }
    let footer_start = payload_end + 1;
    let footer_end = find_delimiter(&chars, footer_start);
    let ghost rest = after_delimiter(text@);
    assert(chars@.skip(footer_start as int) =~= after_delimiter(rest));

    let header = text_of(&chars, 0, header_end);
    let payload = text_of(&chars, payload_start, payload_end);
    assert(payload@ =~= first_segment(rest));
    let footer = text_of(&chars, footer_start, footer_end);
    assert(footer@ =~= first_segment(after_delimiter(rest)));

    check_header(header.as_str())?;
    check_footer(footer.as_str())?;
    Ok(Frame { header, payload, footer })
}

} // verus!
