//! The bodies that the proxy writes as JSON: an error with its code and its
//! message, and the list of the servants' names. The strings in them are
//! written by the JSON library; the proxy sets them into their frames.

use crate::request::option_text;
use crate::text::{decimal_digits, push_decimal};
use vstd::prelude::*;
use vstd::string::*;

verus! {

/// The byte of the comma.
pub const COMMA: u8 = 44;

/// The opening of an error: `{"code":`
pub const ERROR_OPEN: [u8; 8] = [123, 34, 99, 111, 100, 101, 34, 58];

/// Between the code and the message of an error: `,"message":`
pub const ERROR_MIDDLE: [u8; 11] = [44, 34, 109, 101, 115, 115, 97, 103, 101, 34, 58];

/// The closing of an error: `}`
pub const ERROR_CLOSE: [u8; 1] = [125];

/// The opening of the list of servants: `{"servant":[`
pub const SERVANTS_OPEN: [u8; 12] = [123, 34, 115, 101, 114, 118, 97, 110, 116, 34, 58, 91];

/// The closing of the list of servants: `]}`
pub const SERVANTS_CLOSE: [u8; 2] = [93, 125];

/// The body in place of a list of servants that could not be written:
/// `NULL`
pub const SERVANTS_UNWRITTEN: [u8; 4] = [78, 85, 76, 76];

/// The bytes of a text.
pub open spec fn text_bytes(text: Seq<char>) -> Seq<u8> {
    vstd::utf8::encode_utf8(text)
}

/// What `serde_json::to_string` makes of a text: the text as a JSON string,
/// or nothing where it gives an error.
pub uninterp spec fn json_text(text: Seq<char>) -> Option<Seq<char>>;

/// `serde_json::to_string` for a text: the text as a JSON string, with its
/// quotation marks and escapes, or nothing where the library gives an error.
#[verifier::external_body]
pub(crate) fn to_json_text(text: &str) -> (json: Option<String>)
    ensures
        option_text(json) == json_text(text@),
{
    serde_json::to_string(text).ok()
}

/// An error as a JSON object, with its message as the JSON string
/// `quoted`: its code, then its message. Without such a string the body is
/// the message as it stands.
pub open spec fn error_json(code: u16, quoted: Option<Seq<char>>, message: Seq<char>) -> Seq<u8> {
    match quoted {
        Some(q) => ERROR_OPEN@ + decimal_digits(code as nat) + ERROR_MIDDLE@ + text_bytes(q)
            + ERROR_CLOSE@,
        None => text_bytes(message),
    }
}

/// Whether every text has its JSON string.
pub open spec fn all_quoted(quoted: Seq<Option<Seq<char>>>) -> bool {
    forall|i: int| 0 <= i < quoted.len() ==> (#[trigger] quoted[i]) is Some
}

/// JSON strings with commas between them.
pub open spec fn joined(quoted: Seq<Option<Seq<char>>>) -> Seq<u8>
    decreases quoted.len(),
{
    if quoted.len() == 0 {
        Seq::empty()
    } else if quoted.len() == 1 {
        text_bytes(quoted[0].unwrap())
    } else {
        joined(quoted.drop_last()) + seq![COMMA] + text_bytes(quoted.last().unwrap())
    }
}

/// The names of the servants as a JSON object with the one member
/// `servant`, each name as its JSON string. Where a name has none, the body
/// says that nothing was written.
pub open spec fn servants_json(quoted: Seq<Option<Seq<char>>>) -> Seq<u8> {
    if all_quoted(quoted) {
        SERVANTS_OPEN@ + joined(quoted) + SERVANTS_CLOSE@
    } else {
        SERVANTS_UNWRITTEN@
    }
}

/// The JSON string of each name.
pub open spec fn json_texts(names: Seq<Seq<char>>) -> Seq<Option<Seq<char>>> {
    names.map_values(|n: Seq<char>| json_text(n))
}

/// What each of a list of strings holds, where it is there.
pub open spec fn option_texts(quoted: Seq<Option<String>>) -> Seq<Option<Seq<char>>> {
    quoted.map_values(|q: Option<String>| option_text(q))
}

/// Appends bytes as they are.
pub fn push_bytes(out: &mut Vec<u8>, bytes: &[u8])
    ensures
        final(out)@ == old(out)@ + bytes@,
{
    let mut i: usize = 0;
    while i < bytes.len()
        invariant
            i <= bytes.len(),
            out@ == old(out)@ + bytes@.take(i as int),
        decreases bytes.len() - i,
    {
        out.push(bytes[i]);
        assert(out@ =~= old(out)@ + bytes@.take(i + 1));
        i += 1;
    }
    assert(bytes@.take(i as int) =~= bytes@);
}

/// An error as a JSON object, with its message as the JSON string given;
/// without such a string, the message as it stands.
pub fn error_body_of(code: u16, quoted: &Option<String>, message: &str) -> (body: Vec<u8>)
    ensures
        body@ == error_json(code, option_text(*quoted), message@),
{
    match quoted {
        Some(q) => {
            let mut body: Vec<u8> = Vec::new();
            push_bytes(&mut body, ERROR_OPEN.as_slice());
            push_decimal(code as u128, &mut body);
            push_bytes(&mut body, ERROR_MIDDLE.as_slice());
            push_bytes(&mut body, q.as_str().as_bytes());
            push_bytes(&mut body, ERROR_CLOSE.as_slice());
            assert(body@ =~= error_json(code, option_text(*quoted), message@));
            body
        },
        None => message.as_bytes_vec(),
    }
}

/// An error as a JSON object: its code, then its message.
pub fn error_body(code: u16, message: &str) -> (body: Vec<u8>)
    ensures
        body@ == error_json(code, json_text(message@), message@),
{
    let quoted = to_json_text(message);
    error_body_of(code, &quoted, message)
}

/// Whether every text has its JSON string.
pub fn has_all(quoted: &Vec<Option<String>>) -> (all: bool)
    ensures
        all == all_quoted(option_texts(quoted@)),
{
    let mut i: usize = 0;
    while i < quoted.len()
        invariant
            i <= quoted.len(),
            forall|k: int| 0 <= k < i ==> (#[trigger] option_texts(quoted@)[k]) is Some,
        decreases quoted.len() - i,
    {
        if quoted[i].is_none() {
            assert(option_texts(quoted@)[i as int] is None);
            return false;
        }
        i += 1;
    }
    true
}

/// The names of the servants as a JSON object with the one member
/// `servant`, with each name as the JSON string given. Where a name has
/// none, the body says that nothing was written.
pub fn servants_body_of(quoted: &Vec<Option<String>>) -> (body: Vec<u8>)
    ensures
        body@ == servants_json(option_texts(quoted@)),
{
    let ghost texts = option_texts(quoted@);
    let mut body: Vec<u8> = Vec::new();
    if !has_all(quoted) {
        push_bytes(&mut body, SERVANTS_UNWRITTEN.as_slice());
        return body;
    }
    push_bytes(&mut body, SERVANTS_OPEN.as_slice());
    let mut i: usize = 0;
    while i < quoted.len()
        invariant
            i <= quoted.len(),
            texts == option_texts(quoted@),
            all_quoted(texts),
            body@ == SERVANTS_OPEN@ + joined(texts.take(i as int)),
        decreases quoted.len() - i,
    {
        let ghost before = texts.take(i as int);
        assert(texts[i as int] is Some);
        match &quoted[i] {
            Some(q) => {
                if i > 0 {
                    body.push(COMMA);
                }
                push_bytes(&mut body, q.as_str().as_bytes());
                proof {
                    let next = texts.take(i + 1);
                    assert(next.drop_last() =~= before);
                    assert(next.last() == texts[i as int]);
                    assert(next.last().unwrap() == q@);
                    if i == 0 {
                        assert(before.len() == 0);
                        assert(next[0] == next.last());
                    }
                    assert(body@ =~= SERVANTS_OPEN@ + joined(next));
                }
            },
            None => {},
        }
        i += 1;
    }
    assert(texts.take(i as int) =~= texts);
    push_bytes(&mut body, SERVANTS_CLOSE.as_slice());
    body
}

/// The JSON string of each name.
pub fn quote_all(names: &Vec<String>) -> (quoted: Vec<Option<String>>)
    ensures
        option_texts(quoted@) == json_texts(names@.map_values(|n: String| n@)),
{
    let mut quoted: Vec<Option<String>> = Vec::new();
    let mut i: usize = 0;
    while i < names.len()
        invariant
            i <= names.len(),
            quoted@.len() == i,
            forall|k: int|
                0 <= k < i ==> option_text(#[trigger] quoted@[k]) == json_text(names@[k]@),
        decreases names.len() - i,
    {
        quoted.push(to_json_text(names[i].as_str()));
        i += 1;
    }
    assert(option_texts(quoted@) =~= json_texts(names@.map_values(|n: String| n@)));
    quoted
}

/// The names of the servants as a JSON object with the one member
/// `servant`.
pub fn servants_body(names: &Vec<String>) -> (body: Vec<u8>)
    ensures
        body@ == servants_json(json_texts(names@.map_values(|n: String| n@))),
{
    let quoted = quote_all(names);
    servants_body_of(&quoted)
}

} // verus!
