use nfs_server::decode::{decode_request, parse_request};
use nfs_server::protocol::{DecodeError, NFSRequest};

#[test]
fn decodes_a_read() {
    assert_eq!(decode_request(b"READ,hello"), Ok(NFSRequest::Read("hello".to_string())));
}

#[test]
fn decodes_a_write() {
    assert_eq!(
        decode_request(b"WRITE,hello,world"),
        Ok(NFSRequest::Write("hello".to_string(), b"world".to_vec()))
    );
}

#[test]
fn an_unknown_kind_is_a_failure() {
    assert_eq!(decode_request(b"BOGUS,x"), Err(DecodeError::UnknownKind));
    assert_eq!(decode_request(b"read,x"), Err(DecodeError::UnknownKind));
    assert_eq!(decode_request(b" READ,x"), Err(DecodeError::UnknownKind));
    assert_eq!(decode_request(b"READ\n,x"), Err(DecodeError::UnknownKind));
    assert_eq!(decode_request(b",READ,x"), Err(DecodeError::UnknownKind));
}

#[test]
fn an_empty_buffer_is_an_unknown_kind() {
    assert_eq!(decode_request(b""), Err(DecodeError::UnknownKind));
}

#[test]
fn a_read_without_name_is_a_failure() {
    assert_eq!(decode_request(b"READ"), Err(DecodeError::MissingName));
}

#[test]
fn a_write_without_name_is_a_failure() {
    assert_eq!(decode_request(b"WRITE"), Err(DecodeError::MissingName));
}

#[test]
fn a_write_without_content_is_a_failure() {
    assert_eq!(decode_request(b"WRITE,name"), Err(DecodeError::MissingContent));
}

#[test]
fn an_empty_name_is_a_name() {
    assert_eq!(decode_request(b"READ,"), Ok(NFSRequest::Read(String::new())));
    assert_eq!(decode_request(b"WRITE,,x"), Ok(NFSRequest::Write(String::new(), b"x".to_vec())));
}

#[test]
fn an_empty_content_is_a_content() {
    assert_eq!(
        decode_request(b"WRITE,name,"),
        Ok(NFSRequest::Write("name".to_string(), Vec::new()))
    );
}

#[test]
fn a_content_ends_at_its_first_comma() {
    assert_eq!(
        decode_request(b"WRITE,name,one,two"),
        Ok(NFSRequest::Write("name".to_string(), b"one".to_vec()))
    );
}

#[test]
fn a_read_ignores_further_fields() {
    assert_eq!(decode_request(b"READ,name,more"), Ok(NFSRequest::Read("name".to_string())));
}

#[test]
fn a_trailing_newline_belongs_to_the_last_field() {
    assert_eq!(decode_request(b"READ,name\n"), Ok(NFSRequest::Read("name\n".to_string())));
}

#[test]
fn valid_utf8_passes_unchanged() {
    let request = "WRITE,naïve,日本語".as_bytes();
    assert_eq!(
        decode_request(request),
        Ok(NFSRequest::Write("naïve".to_string(), "日本語".as_bytes().to_vec()))
    );
}

#[test]
fn invalid_utf8_is_replaced() {
    assert_eq!(
        decode_request(b"READ,a\xffb"),
        Ok(NFSRequest::Read("a\u{fffd}b".to_string()))
    );
    assert_eq!(
        decode_request(b"WRITE,n,\xff"),
        Ok(NFSRequest::Write("n".to_string(), vec![0xef, 0xbf, 0xbd]))
    );
}

#[test]
fn an_invalid_byte_in_the_kind_is_an_unknown_kind() {
    assert_eq!(decode_request(b"READ\xff,x"), Err(DecodeError::UnknownKind));
}

#[test]
fn parse_request_reads_text() {
    assert_eq!(parse_request("READ,hello"), Ok(NFSRequest::Read("hello".to_string())));
    assert_eq!(
        parse_request("WRITE,hello,wörld"),
        Ok(NFSRequest::Write("hello".to_string(), "wörld".as_bytes().to_vec()))
    );
    assert_eq!(parse_request(""), Err(DecodeError::UnknownKind));
    assert_eq!(parse_request("READ"), Err(DecodeError::MissingName));
    assert_eq!(parse_request("WRITE,x"), Err(DecodeError::MissingContent));
}

#[test]
fn each_failure_has_its_message() {
    assert_eq!(DecodeError::UnknownKind.message(), "Invalid request type");
    assert_eq!(DecodeError::MissingName.message(), "Missing name");
    assert_eq!(DecodeError::MissingContent.message(), "Missing content");
}

#[test]
fn a_request_that_fills_the_buffer_is_decoded() {
    let mut request = b"WRITE,name,".to_vec();
    while request.len() < 1024 {
        request.push(b'x');
    }
    let content = vec![b'x'; 1024 - "WRITE,name,".len()];
    assert_eq!(decode_request(&request), Ok(NFSRequest::Write("name".to_string(), content)));
}

#[test]
fn a_buffer_full_of_commas_is_an_unknown_kind() {
    assert_eq!(decode_request(&[b','; 1024]), Err(DecodeError::UnknownKind));
}
