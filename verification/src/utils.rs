//! Reading the answer of the media type query.

use vstd::prelude::*;
use vstd::string::StringSliceAdditionalSpecFns;
use vstd::utf8::{decode_utf8, encode_utf8_decode_utf8, valid_utf8};

verus! {

/// The top-level type of the media type that `text` spells, in lower case
/// (`text` for `text/plain`), and `None` where `text` spells no media type.
pub uninterp spec fn media_top_level(text: Seq<char>) -> Option<Seq<char>>;

/// Calls `<mime::Mime as FromStr>::from_str` of the `mime` crate and, where
/// that parses, `Mime::type_` and `Name::as_str` on what it gave. The parser
/// reads nothing but its argument, so the contract names its result; it
/// claims nothing of which texts parse.
#[verifier::external_body]
fn parse_top_level(text: &str) -> (r: Option<String>)
    ensures
        match r {
            Some(top) => media_top_level(text@) == Some(top@),
            None => media_top_level(text@) is None,
        },
{
    match text.parse::<mime::Mime>() {
        Ok(parsed) => Some(parsed.type_().as_str().to_string()),
        Err(_) => None,
    }
}

/// Calls `core::str::from_utf8` of std, which accepts exactly the byte
/// strings that are valid UTF-8 and hands back the same bytes as text.
#[verifier::external_body]
fn utf8_text(bytes: &[u8]) -> (r: Option<&str>)
    ensures
        r is Some <==> valid_utf8(bytes@),
        r matches Some(s) ==> s.spec_bytes() == bytes@,
{
    match core::str::from_utf8(bytes) {
        Ok(s) => Some(s),
        Err(_) => None,
    }
}

/// An answer without the line feed that ends it, where one does.
pub open spec fn without_line_feed(answer: Seq<u8>) -> Seq<u8> {
    if answer.len() > 0 && answer.last() == 10 {
        answer.drop_last()
    } else {
        answer
    }
}

/// The text of an answer: the answer without its closing line feed where
/// that is valid UTF-8, else `text/plain`.
pub open spec fn answer_text(answer: Seq<u8>) -> Seq<char> {
    let line = without_line_feed(answer);
    if valid_utf8(line) {
        decode_utf8(line)
    } else {
        "text/plain"@
    }
}

/// The top-level media type that `text` spells, and `text` where it spells
/// no media type.
pub open spec fn top_level(text: Seq<char>) -> Seq<char> {
    match media_top_level(text) {
        Some(top) => top,
        None => "text"@,
    }
}

/// The top-level media type that an answer of the query reports.
pub open spec fn reported_type(answer: Seq<u8>) -> Seq<char> {
    top_level(answer_text(answer))
}

/// The top-level media type that a text spells.
pub fn top_level_of(text: &str) -> (r: String)
    ensures
        r@ == top_level(text@),
{
    match parse_top_level(text) {
        Some(top) => top,
        None => "text".to_owned(),
    }
}

/// Reads the outcome of the media type query for a file: `answer` is what
/// the query printed, or why it could not be run. Gives the top-level media
/// type that the answer reports, and hands a failure of the query on.
pub fn get_mime_type(answer: Result<Vec<u8>, String>) -> (r: Result<String, String>)
    ensures
        match answer {
            Ok(bytes) => r matches Ok(top) && top@ == reported_type(bytes@),
            Err(why) => r == Err::<String, String>(why),
        },
{
    match answer {
        Err(why) => Err(why),
        Ok(bytes) => {
            let mut line = bytes;
            let n: usize = line.len();
            if n > 0 && line[n - 1] == 10 {
                let _ = line.pop();
            }
            assert(line@ =~= without_line_feed(bytes@));
            match utf8_text(line.as_slice()) {
                Some(text) => {
                    proof {
                        encode_utf8_decode_utf8(text@);
                    }
                    Ok(top_level_of(text))
                },
                None => Ok(top_level_of("text/plain")),
            }
        },
    }
}

} // verus!
