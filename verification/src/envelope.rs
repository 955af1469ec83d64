use vstd::prelude::*;

use crate::codec::{b64_decode, b64_of, utf8_of, utf8_to_string};
use crate::groups::str_views;
use crate::scan::find_char;
use crate::server::ParseError;

verus! {

/// A line segment with one trailing carriage return removed.
pub open spec fn strip_cr(seg: Seq<char>) -> Seq<char> {
    if seg.len() > 0 && seg.last() == '\r' {
        seg.drop_last()
    } else {
        seg
    }
}

/// The non-empty lines of a text: the text is split on `'\n'`, each
/// segment loses one trailing `'\r'`, and blank segments are skipped.
pub open spec fn spec_lines(s: Seq<char>) -> Seq<Seq<char>>
    decreases s.len(),
{
    match s.index_of_first('\n') {
        Some(i) => if 0 <= i < s.len() {
            let seg = strip_cr(s.take(i));
            let rest = spec_lines(s.skip(i + 1));
            if seg.len() == 0 {
                rest
            } else {
                seq![seg] + rest
            }
        } else {
            Seq::empty()
        },
        None => {
            let seg = strip_cr(s);
            if seg.len() == 0 {
                Seq::empty()
            } else {
                seq![seg]
            }
        },
    }
}

/// What decoding the outer envelope yields: the payload bytes read as
/// base64 text, the blob decoded, the decoded bytes read as text, and
/// that text split into its non-empty lines; nothing when any step fails.
pub open spec fn envelope_lines(payload: Seq<u8>) -> Option<Seq<Seq<char>>> {
    match utf8_of(payload) {
        Some(b64_text) => match b64_of(b64_text) {
            Some(decoded) => match utf8_of(decoded) {
                Some(text) => Some(spec_lines(text)),
                None => None,
            },
            None => None,
        },
        None => None,
    }
}

/// Blank lines are skipped: every line the splitter yields is non-empty.
pub proof fn lemma_lines_non_empty(s: Seq<char>)
    ensures
        forall|i: int| 0 <= i < spec_lines(s).len() ==> #[trigger] spec_lines(s)[i].len() > 0,
    decreases s.len(),
{
    s.index_of_first_ensures('\n');
    match s.index_of_first('\n') {
        Some(k) => {
            lemma_lines_non_empty(s.skip(k + 1));
            let seg = strip_cr(s.take(k));
            let rest = spec_lines(s.skip(k + 1));
            if seg.len() > 0 {
                assert forall|i: int| 0 <= i < spec_lines(s).len() implies #[trigger] spec_lines(
                    s,
                )[i].len() > 0 by {
                    if i > 0 {
                        assert(spec_lines(s)[i] == rest[i - 1]);
                    }
                }
            }
        },
        None => {},
    }
}

fn strip_cr_str<'a>(seg: &'a str) -> (r: &'a str)
    ensures
        r@ == strip_cr(seg@),
{
    let n = seg.unicode_len();
    if n > 0 && seg.get_char(n - 1) == '\r' {
        let r = seg.substring_char(0, n - 1);
        proof {
            assert(r@ =~= strip_cr(seg@));
        }
        r
    } else {
        seg
    }
}

/// Splits a text into its non-empty lines: split on `'\n'`, one trailing
/// `'\r'` stripped from each segment, blank segments skipped.
pub fn split_lines(s: &str) -> (r: Vec<String>)
    ensures
        str_views(r@) == spec_lines(s@),
    decreases s@.len(),
{
    let n = s.unicode_len();
    match find_char(s, '\n') {
        Some(i) => {
            proof {
                s@.index_of_first_ensures('\n');
            }
            let seg = strip_cr_str(s.substring_char(0, i));
            let rest_str = s.substring_char(i + 1, n);
            let mut rest = split_lines(rest_str);
            if seg.unicode_len() > 0 {
                let owned = seg.to_owned();
                rest.insert(0, owned);
                proof {
                    assert(str_views(rest@) =~= seq![strip_cr(s@.take(i as int))] + spec_lines(
                        s@.skip(i + 1),
                    ));
                }
            }
            rest
        },
        None => {
            proof {
                s@.index_of_first_ensures('\n');
            }
            let seg = strip_cr_str(s);
            let mut r: Vec<String> = Vec::new();
            if seg.unicode_len() > 0 {
                r.push(seg.to_owned());
                proof {
                    assert(str_views(r@) =~= seq![strip_cr(s@)]);
                }
            } else {
                proof {
                    assert(str_views(r@) =~= Seq::<Seq<char>>::empty());
                }
            }
            r
        },
    }
}

/// Decodes the outer envelope of a payload into its non-empty link lines,
/// `EnvelopeDecodeError` when the payload is not base64 text or the
/// decoded blob is not text.
pub fn decode_envelope(payload: Vec<u8>) -> (r: Result<Vec<String>, ParseError>)
    ensures
        match r {
            Ok(lines) => envelope_lines(payload@) == Some(str_views(lines@)),
            Err(e) => envelope_lines(payload@) is None && e == ParseError::EnvelopeDecodeError,
        },
{
    let ghost p = payload@;
    let b64_text = match utf8_to_string(payload) {
        Some(t) => t,
        None => {
            return Err(ParseError::EnvelopeDecodeError);
        },
    };
    let decoded = match b64_decode(b64_text.as_str()) {
        Some(b) => b,
        None => {
            return Err(ParseError::EnvelopeDecodeError);
        },
    };
    let text = match utf8_to_string(decoded) {
        Some(t) => t,
        None => {
            return Err(ParseError::EnvelopeDecodeError);
        },
    };
    Ok(split_lines(text.as_str()))
}

} // verus!
