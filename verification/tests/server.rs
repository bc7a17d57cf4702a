use nfs_server::protocol::{DecodeError, NFSRequest, NFSResponse};
use nfs_server::server::{decode_failure, NFSServer};

fn not_found() -> NFSResponse {
    NFSResponse::Error("not found".to_string())
}

#[test]
fn a_write_is_acknowledged() {
    let mut server = NFSServer::new();
    let response = server.handle_request(NFSRequest::Write("a".to_string(), vec![1]));
    assert_eq!(response, NFSResponse::Success);
}

#[test]
fn a_read_of_a_missing_name_is_not_found() {
    let mut server = NFSServer::new();
    assert_eq!(server.handle_request(NFSRequest::Read("a".to_string())), not_found());
}

#[test]
fn a_read_of_a_missing_name_is_never_empty_content() {
    let mut server = NFSServer::new();
    let response = server.handle_request(NFSRequest::Read("a".to_string()));
    assert_ne!(response, NFSResponse::Data(Vec::new()));
    assert!(matches!(response, NFSResponse::Error(_)));
}

#[test]
fn an_empty_content_is_read_back_as_data() {
    let mut server = NFSServer::new();
    server.handle_request(NFSRequest::Write("a".to_string(), Vec::new()));
    assert_eq!(
        server.handle_request(NFSRequest::Read("a".to_string())),
        NFSResponse::Data(Vec::new())
    );
}

#[test]
fn round_trip() {
    let mut server = NFSServer::new();
    assert_eq!(server.respond(b"WRITE,n,some content"), NFSResponse::Success);
    assert_eq!(server.respond(b"READ,n"), NFSResponse::Data(b"some content".to_vec()));
}

#[test]
fn round_trip_of_utf8_names_and_contents() {
    let mut server = NFSServer::new();
    assert_eq!(server.respond("WRITE,ключ,значение".as_bytes()), NFSResponse::Success);
    assert_eq!(
        server.respond("READ,ключ".as_bytes()),
        NFSResponse::Data("значение".as_bytes().to_vec())
    );
}

#[test]
fn overwrite() {
    let mut server = NFSServer::new();
    assert_eq!(server.respond(b"WRITE,n,c1"), NFSResponse::Success);
    assert_eq!(server.respond(b"WRITE,n,c2"), NFSResponse::Success);
    assert_eq!(server.respond(b"READ,n"), NFSResponse::Data(b"c2".to_vec()));
    assert_eq!(server.respond(b"READ,n"), NFSResponse::Data(b"c2".to_vec()));
}

#[test]
fn miss() {
    let mut server = NFSServer::new();
    assert_eq!(server.respond(b"WRITE,other,x"), NFSResponse::Success);
    assert_eq!(server.respond(b"READ,n"), not_found());
}

#[test]
fn writes_to_distinct_names_keep_every_entry() {
    let mut server = NFSServer::new();
    let count: u8 = 50;
    for i in 0..count {
        let request = format!("WRITE,name{},content{}", i, i);
        assert_eq!(server.respond(request.as_bytes()), NFSResponse::Success);
    }
    for i in (0..count).rev() {
        let request = format!("READ,name{}", i);
        let expected = format!("content{}", i);
        assert_eq!(server.respond(request.as_bytes()), NFSResponse::Data(expected.into_bytes()));
    }
}

#[test]
fn writes_to_distinct_names_commute() {
    let mut first = NFSServer::new();
    first.respond(b"WRITE,a,1");
    first.respond(b"WRITE,b,2");
    let mut second = NFSServer::new();
    second.respond(b"WRITE,b,2");
    second.respond(b"WRITE,a,1");
    for name in ["READ,a", "READ,b", "READ,c"] {
        assert_eq!(first.respond(name.as_bytes()), second.respond(name.as_bytes()));
    }
}

#[test]
fn a_read_sees_the_old_or_the_new_content_in_full() {
    let mut server = NFSServer::new();
    server.respond(b"WRITE,n,old content");
    assert_eq!(server.respond(b"READ,n"), NFSResponse::Data(b"old content".to_vec()));
    server.respond(b"WRITE,n,new");
    assert_eq!(server.respond(b"READ,n"), NFSResponse::Data(b"new".to_vec()));
}

#[test]
fn malformed_input_gives_an_error_and_changes_nothing() {
    let mut server = NFSServer::new();
    server.respond(b"WRITE,x,kept");
    assert_eq!(
        server.respond(b"BOGUS,x"),
        NFSResponse::Error("Invalid request type".to_string())
    );
    assert_eq!(server.respond(b"READ"), NFSResponse::Error("Missing name".to_string()));
    assert_eq!(server.respond(b"WRITE,x"), NFSResponse::Error("Missing content".to_string()));
    assert_eq!(server.respond(b""), NFSResponse::Error("Invalid request type".to_string()));
    assert_eq!(server.respond(b"READ,x"), NFSResponse::Data(b"kept".to_vec()));
    assert_eq!(server.respond(b"READ,BOGUS"), not_found());
}

#[test]
fn decode_failure_carries_the_message() {
    assert_eq!(
        decode_failure(DecodeError::UnknownKind),
        NFSResponse::Error("Invalid request type".to_string())
    );
    assert_eq!(
        decode_failure(DecodeError::MissingName),
        NFSResponse::Error("Missing name".to_string())
    );
    assert_eq!(
        decode_failure(DecodeError::MissingContent),
        NFSResponse::Error("Missing content".to_string())
    );
}

#[test]
fn concrete_scenario() {
    let mut server = NFSServer::new();
    assert_eq!(server.handle_client(b"WRITE,hello,world"), Ok(b"\"Success\"".to_vec()));
    assert_eq!(
        server.handle_client(b"READ,hello"),
        Ok(b"{\"Data\":[119,111,114,108,100]}".to_vec())
    );
    assert_eq!(
        server.handle_client(b"READ,missing"),
        Ok(b"{\"Error\":\"not found\"}".to_vec())
    );
}

#[test]
fn handle_client_answers_malformed_input() {
    let mut server = NFSServer::new();
    assert_eq!(
        server.handle_client(b"BOGUS,x"),
        Ok(b"{\"Error\":\"Invalid request type\"}".to_vec())
    );
    assert_eq!(server.handle_client(b"READ"), Ok(b"{\"Error\":\"Missing name\"}".to_vec()));
    assert_eq!(server.handle_client(b"READ,x"), Ok(b"{\"Error\":\"not found\"}".to_vec()));
}

#[test]
fn requests_and_responses_can_be_cloned() {
    let request = NFSRequest::Write("a".to_string(), vec![1, 2]);
    assert_eq!(request.clone(), request);
    let request = NFSRequest::Read("a".to_string());
    assert_eq!(request.clone(), request);
    for response in [
        NFSResponse::Data(vec![1, 2]),
        NFSResponse::Success,
        NFSResponse::Error("x".to_string()),
    ] {
        assert_eq!(response.clone(), response);
    }
}
