//! Encoding: from a response to the bytes that go back to the client.
//!
//! A response is written as JSON, tagged by its variant:
//! `{"Data":[119,111]}` for a content, each byte as a decimal number;
//! `"Success"` for an acknowledged write; `{"Error":"..."}` for a failure,
//! the message as a JSON string. Nothing follows the value: no newline.

use crate::protocol::{EncodeError, NFSResponse, ResponseView};
use vstd::prelude::*;
use vstd::string::{StrSliceExecFns, StringExecFns};
use vstd::utf8::encode_utf8;

verus! {

/// The JSON string that `serde_json::to_string` writes for `text`, quotes
/// included; `None` where it reports an error instead.
pub uninterp spec fn json_string(text: Seq<char>) -> Option<Seq<char>>;

/// Declares `serde_json::Error`, the error of `serde_json::to_string`, as an
/// opaque type: nothing is known of a value of it.
#[verifier::external_type_specification]
#[verifier::external_body]
pub struct ExJsonError(serde_json::Error);

/// Calls `serde_json::to_string` on a string slice.
///
/// Trusted: whether the call succeeds, and the text it returns, depend on
/// the argument alone. Nothing is claimed of what the text holds.
#[verifier::external_body]
fn to_json_string(text: &str) -> (json: Result<String, serde_json::Error>)
    ensures
        match json {
            Ok(written) => json_string(text@) == Some(written@),
            Err(_) => json_string(text@) is None,
        },
{
    serde_json::to_string(text)
}

/// The decimal digit for `value`, which is below ten.
pub open spec fn digit(value: nat) -> char {
    "0123456789"@[value as int]
}

/// The number `n` in decimal, without sign or leading zeros.
pub open spec fn decimal(n: nat) -> Seq<char>
    decreases n,
{
    if n < 10 {
        seq![digit(n)]
    } else {
        decimal(n / 10).push(digit(n % 10))
    }
}

/// The bytes as decimal numbers with a comma between each two neighbours.
pub open spec fn number_list(bytes: Seq<u8>) -> Seq<char>
    decreases bytes.len(),
{
    if bytes.len() == 0 {
        Seq::<char>::empty()
    } else if bytes.len() == 1 {
        decimal(bytes[0] as nat)
    } else {
        number_list(bytes.drop_last()) + seq![','] + decimal(bytes.last() as nat)
    }
}

/// The bytes as a JSON array of numbers: `[]`, `[7]`, `[119,111]`.
pub open spec fn json_array(bytes: Seq<u8>) -> Seq<char> {
    seq!['['] + number_list(bytes) + seq![']']
}

/// A JSON object with the one member `tag`, whose value is `payload`.
pub open spec fn tagged(tag: Seq<char>, payload: Seq<char>) -> Seq<char> {
    seq!['{', '"'] + tag + seq!['"', ':'] + payload + seq!['}']
}

/// The text of a response on the wire; `None` where the message of an error
/// response has no JSON string.
pub open spec fn response_text(response: ResponseView) -> Option<Seq<char>> {
    match response {
        ResponseView::Data(content) => Some(tagged("Data"@, json_array(content))),
        ResponseView::Success => Some(seq!['"'] + "Success"@ + seq!['"']),
        ResponseView::Error(message) => match json_string(message) {
            Some(written) => Some(tagged("Error"@, written)),
            None => None,
        },
    }
}

/// The bytes of a response on the wire: its text in UTF-8.
pub open spec fn response_bytes(response: ResponseView) -> Option<Seq<u8>> {
    match response_text(response) {
        Some(text) => Some(encode_utf8(text)),
        None => None,
    }
}

/// Appends `value` in decimal.
fn append_decimal(out: &mut String, value: u8)
    ensures
        final(out)@ == old(out)@ + decimal(value as nat),
{
    let digits = "0123456789";
    proof {
        reveal_strlit("0123456789");
        reveal_with_fuel(decimal, 3);
    }
    let ghost before = out@;
    if value >= 100 {
        let hundreds = (value / 100) as usize;
        out.append(digits.substring_char(hundreds, hundreds + 1));
    }
    if value >= 10 {
        let tens = ((value / 10) % 10) as usize;
        out.append(digits.substring_char(tens, tens + 1));
    }
    let ones = (value % 10) as usize;
    out.append(digits.substring_char(ones, ones + 1));
    assert(out@ =~= before + decimal(value as nat));
}

/// The bytes of `content` as a JSON array of numbers.
pub fn number_array(content: &[u8]) -> (text: String)
    ensures
        text@ == json_array(content@),
{
    let mut text = "[".to_owned();
    proof {
        reveal_strlit("[");
        reveal_strlit(",");
        reveal_strlit("]");
        assert(text@ =~= seq!['['] + number_list(content@.take(0)));
    }
    let mut i: usize = 0;
    while i < content.len()
        invariant
            i <= content.len(),
            text@ == seq!['['] + number_list(content@.take(i as int)),
            ","@ == seq![','],
        decreases content.len() - i,
    {
        let ghost done = content@.take(i as int);
        let ghost next = content@.take(i + 1);
        proof {
            assert(next.drop_last() =~= done);
            assert(next.last() == content@[i as int]);
        }
        if i > 0 {
            text.append(",");
        }
        append_decimal(&mut text, content[i]);
        proof {
            assert(text@ =~= seq!['['] + number_list(next));
        }
        i = i + 1;
    }
    text.append("]");
    assert(content@.take(i as int) =~= content@);
    text
}

/// The JSON object `{"tag":payload}`, where `payload` is JSON already.
pub fn frame(tag: &str, payload: &str) -> (text: String)
    ensures
        text@ == tagged(tag@, payload@),
{
    let mut text = "{\"".to_owned();
    text.append(tag);
    text.append("\":");
    text.append(payload);
    text.append("}");
    proof {
        reveal_strlit("{\"");
        reveal_strlit("\":");
        reveal_strlit("}");
        assert(text@ =~= tagged(tag@, payload@));
    }
    text
}

/// Encodes a response for the wire.
///
/// A content and an acknowledgement always encode. An error response
/// encodes where its message has a JSON string; where it has none, the
/// result is [`EncodeError::Message`].
pub fn encode_response(response: &NFSResponse) -> (bytes: Result<Vec<u8>, EncodeError>)
    ensures
        match bytes {
            Ok(written) => response_bytes(response@) == Some(written@),
            Err(error) => response_bytes(response@) is None && error == EncodeError::Message,
        },
{
    match response {
        NFSResponse::Data(content) => {
            let array = number_array(content.as_slice());
            let text = frame("Data", array.as_str());
            Ok(text.as_str().as_bytes_vec())
        },
        NFSResponse::Success => {
            let text = "\"Success\"";
            proof {
                reveal_strlit("\"Success\"");
                reveal_strlit("Success");
                assert(text@ =~= seq!['"'] + "Success"@ + seq!['"']);
            }
            Ok(text.as_bytes_vec())
        },
        NFSResponse::Error(message) => match to_json_string(message.as_str()) {
            Ok(written) => {
                let text = frame("Error", written.as_str());
                Ok(text.as_str().as_bytes_vec())
            },
            Err(_) => Err(EncodeError::Message),
        },
    }
}

} // verus!
