//! Decoding: from the bytes that a connection received to a typed request.
//!
//! The bytes are read as UTF-8, with every invalid sequence replaced by
//! U+FFFD, and the text is split into fields at each comma. The first field
//! is the kind of the request, the second the name, and the third, for a
//! write, the content. Fields beyond those are ignored, so a content ends at
//! its first comma.

use crate::fields::{
    join_fields, lemma_split_join, lemma_split_nonempty, separator_free, split, split_fields,
    texts, SEPARATOR,
};
use crate::protocol::{DecodeError, NFSRequest, RequestView};
use vstd::prelude::*;
use vstd::string::StrSliceExecFns;
use vstd::utf8::{
    decode_utf8, decode_utf8_encode_utf8, encode_scalar, encode_utf8, encode_utf8_decode_utf8,
    encode_utf8_valid_utf8, valid_utf8,
};

verus! {

/// The text that `String::from_utf8_lossy` makes of `bytes`.
pub uninterp spec fn lossy_text(bytes: Seq<u8>) -> Seq<char>;

/// Calls `String::from_utf8_lossy` and takes the result as an owned string.
///
/// Trusted: the text depends on the bytes alone; and, as the documentation of
/// that function says, bytes that are valid UTF-8 come back as the very text
/// that they encode, with nothing replaced.
#[verifier::external_body]
fn utf8_lossy(bytes: &[u8]) -> (text: String)
    ensures
        text@ == lossy_text(bytes@),
        valid_utf8(bytes@) ==> text@ == decode_utf8(bytes@),
{
    String::from_utf8_lossy(bytes).into_owned()
}

/// The text of a request: what its bytes encode where they are valid UTF-8,
/// and the lossy reading of them where they are not.
pub open spec fn request_text(bytes: Seq<u8>) -> Seq<char> {
    if valid_utf8(bytes) {
        decode_utf8(bytes)
    } else {
        lossy_text(bytes)
    }
}

/// The request that a sequence of fields stands for, or why there is none.
pub open spec fn request_of_fields(fields: Seq<Seq<char>>) -> Result<RequestView, DecodeError> {
    if fields.len() >= 1 && fields[0] == "READ"@ {
        if fields.len() >= 2 {
            Ok(RequestView::Read(fields[1]))
        } else {
            Err(DecodeError::MissingName)
        }
    } else if fields.len() >= 1 && fields[0] == "WRITE"@ {
        if fields.len() < 2 {
            Err(DecodeError::MissingName)
        } else if fields.len() < 3 {
            Err(DecodeError::MissingContent)
        } else {
            Ok(RequestView::Write(fields[1], encode_utf8(fields[2])))
        }
    } else {
        Err(DecodeError::UnknownKind)
    }
}

/// The request that a text stands for, or why there is none.
pub open spec fn request_of_text(text: Seq<char>) -> Result<RequestView, DecodeError> {
    request_of_fields(split_fields(text))
}

/// The request that the bytes of a connection stand for, or why there is
/// none.
pub open spec fn request_of_bytes(bytes: Seq<u8>) -> Result<RequestView, DecodeError> {
    request_of_text(request_text(bytes))
}

/// Reads `text` as a request.
///
/// The content of a write is the UTF-8 encoding of the third field.
pub fn parse_request(text: &str) -> (request: Result<NFSRequest, DecodeError>)
    ensures
        match request {
            Ok(found) => request_of_text(text@) == Ok::<RequestView, DecodeError>(found@),
            Err(error) => request_of_text(text@) == Err::<RequestView, DecodeError>(error),
        },
{
    let fields = split(text);
    proof {
        lemma_split_nonempty(text@);
        assert(fields@.len() == texts(fields@).len());
        assert(forall|i: int| 0 <= i < fields@.len() ==> texts(fields@)[i] == fields@[i]@);
    }
    let read = "READ".to_owned();
    let write = "WRITE".to_owned();
    if fields[0] == read {
        if fields.len() >= 2 {
            Ok(NFSRequest::Read(fields[1].clone()))
        } else {
            Err(DecodeError::MissingName)
        }
    } else if fields[0] == write {
        if fields.len() < 2 {
            Err(DecodeError::MissingName)
        } else if fields.len() < 3 {
            Err(DecodeError::MissingContent)
        } else {
            Ok(NFSRequest::Write(fields[1].clone(), fields[2].as_str().as_bytes_vec()))
        }
    } else {
        Err(DecodeError::UnknownKind)
    }
}

/// Decodes the bytes that a connection received.
///
/// Returns the request where the first field is `READ` or `WRITE` and the
/// fields that the kind asks for are there; otherwise the error that says
/// what is wrong. An empty buffer is an unknown kind.
pub fn decode_request(bytes: &[u8]) -> (request: Result<NFSRequest, DecodeError>)
    ensures
        match request {
            Ok(found) => request_of_bytes(bytes@) == Ok::<RequestView, DecodeError>(found@),
            Err(error) => request_of_bytes(bytes@) == Err::<RequestView, DecodeError>(error),
        },
{
    let text = utf8_lossy(bytes);
    parse_request(text.as_str())
}

/// The byte that encodes the separator.
pub const SEPARATOR_BYTE: u8 = 0x2c;

/// The bytes that a client sends to read `name`: `READ,<name>`.
pub open spec fn read_request(name: Seq<char>) -> Seq<u8> {
    encode_utf8("READ"@ + seq![SEPARATOR] + name)
}

/// The bytes that a client sends to write `content` under `name`:
/// `WRITE,<name>,<content>`.
pub open spec fn write_request(name: Seq<char>, content: Seq<u8>) -> Seq<u8> {
    encode_utf8("WRITE"@ + seq![SEPARATOR] + name + seq![SEPARATOR]) + content
}

/// The encoding of a text is the encoding of its front followed by the
/// encoding of its back.
pub proof fn lemma_encode_concat(front: Seq<char>, back: Seq<char>)
    ensures
        encode_utf8(front + back) == encode_utf8(front) + encode_utf8(back),
    decreases front.len(),
{
    if front.len() == 0 {
        assert(front + back =~= back);
        assert(encode_utf8(front) + encode_utf8(back) =~= encode_utf8(back));
    } else {
        lemma_encode_concat(front.drop_first(), back);
        assert((front + back).drop_first() =~= front.drop_first() + back);
        assert((front + back)[0] == front[0]);
        assert(encode_utf8(front + back) =~= encode_utf8(front) + encode_utf8(back));
    }
}

/// Valid UTF-8 followed by valid UTF-8 decodes to the one text followed by
/// the other.
pub proof fn lemma_decode_concat(front: Seq<u8>, back: Seq<u8>)
    requires
        valid_utf8(front),
        valid_utf8(back),
    ensures
        valid_utf8(front + back),
        decode_utf8(front + back) == decode_utf8(front) + decode_utf8(back),
{
    let text = decode_utf8(front) + decode_utf8(back);
    decode_utf8_encode_utf8(front);
    decode_utf8_encode_utf8(back);
    lemma_encode_concat(decode_utf8(front), decode_utf8(back));
    encode_utf8_valid_utf8(text);
    encode_utf8_decode_utf8(text);
}

/// A separator in a text shows as a separator byte in its encoding.
pub proof fn lemma_separator_is_encoded(text: Seq<char>, at: int)
    requires
        0 <= at < text.len(),
        text[at] == SEPARATOR,
    ensures
        encode_utf8(text).contains(SEPARATOR_BYTE),
    decreases text.len(),
{
    let first = encode_scalar(text[0] as u32);
    let rest = encode_utf8(text.drop_first());
    if at == 0 {
        assert(0x2cu32 & 0x7f == 0x2c) by (bit_vector);
        assert(first[0] == SEPARATOR_BYTE);
        assert((first + rest)[0] == SEPARATOR_BYTE);
    } else {
        lemma_separator_is_encoded(text.drop_first(), at - 1);
        let found = choose|i: int| 0 <= i < rest.len() && rest[i] == SEPARATOR_BYTE;
        assert((first + rest)[first.len() + found] == SEPARATOR_BYTE);
    }
}

/// Valid UTF-8 without a separator byte decodes to text without a
/// separator.
pub proof fn lemma_decoded_separator_free(bytes: Seq<u8>)
    requires
        valid_utf8(bytes),
        !bytes.contains(SEPARATOR_BYTE),
    ensures
        separator_free(decode_utf8(bytes)),
{
    let text = decode_utf8(bytes);
    decode_utf8_encode_utf8(bytes);
    assert forall|i: int| 0 <= i < text.len() implies text[i] != SEPARATOR by {
        if text[i] == SEPARATOR {
            lemma_separator_is_encoded(text, i);
        }
    }
}

/// What a client sends to read a name decodes to the read of that name,
/// where the name holds no separator.
pub proof fn lemma_read_request_decodes(name: Seq<char>)
    requires
        separator_free(name),
    ensures
        request_of_bytes(read_request(name)) == Ok::<RequestView, DecodeError>(
            RequestView::Read(name),
        ),
{
    reveal_strlit("READ");
    let fields = seq!["READ"@, name];
    let text = "READ"@ + seq![SEPARATOR] + name;
    encode_utf8_valid_utf8(text);
    encode_utf8_decode_utf8(text);
    assert(separator_free(fields[0]));
    assert(separator_free(fields[1]));
    lemma_split_join(fields);
    reveal_with_fuel(join_fields, 2);
    assert(fields.drop_last() =~= seq!["READ"@]);
    assert(join_fields(fields) =~= text);
}

/// What a client sends to write a content under a name decodes to that
/// write, where the name holds no separator and the content is valid UTF-8
/// without a separator byte.
pub proof fn lemma_write_request_decodes(name: Seq<char>, content: Seq<u8>)
    requires
        separator_free(name),
        valid_utf8(content),
        !content.contains(SEPARATOR_BYTE),
    ensures
        request_of_bytes(write_request(name, content)) == Ok::<RequestView, DecodeError>(
            RequestView::Write(name, content),
        ),
{
    reveal_strlit("READ");
    reveal_strlit("WRITE");
    let head = "WRITE"@ + seq![SEPARATOR] + name + seq![SEPARATOR];
    let body = decode_utf8(content);
    let text = head + body;
    encode_utf8_valid_utf8(head);
    encode_utf8_decode_utf8(head);
    lemma_decode_concat(encode_utf8(head), content);
    decode_utf8_encode_utf8(content);
    lemma_decoded_separator_free(content);
    let fields = seq!["WRITE"@, name, body];
    assert(separator_free(fields[0]));
    assert(separator_free(fields[1]));
    assert(separator_free(fields[2]));
    lemma_split_join(fields);
    reveal_with_fuel(join_fields, 3);
    assert(fields.drop_last() =~= seq!["WRITE"@, name]);
    assert(fields.drop_last().drop_last() =~= seq!["WRITE"@]);
    assert(join_fields(fields) =~= text);
    assert("WRITE"@ != "READ"@) by {
        assert("WRITE"@.len() != "READ"@.len());
    }
}

} // verus!
