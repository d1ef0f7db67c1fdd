use zero2prod::http::HeaderPair;
use zero2prod::http::HttpResponse;
use zero2prod::idempotency::snapshot::decode;
use zero2prod::idempotency::snapshot::encode;
use zero2prod::idempotency::snapshot::CodecError;
use zero2prod::idempotency::snapshot::ResponseSnapshot;

fn header(name: &str, value: &str) -> HeaderPair {
    HeaderPair { name: name.as_bytes().to_vec(), value: value.as_bytes().to_vec() }
}

#[test]
fn encode_writes_length_prefixed_headers() {
    let response = HttpResponse {
        status: 303,
        headers: vec![header("location", "/admin/newsletter")],
        body: vec![1, 2, 3],
    };
    let snapshot = encode(&response).unwrap();
    assert_eq!(snapshot.status_code, 303);
    let mut blob: Vec<u8> = vec![0, 0, 0, 8];
    blob.extend_from_slice(b"location");
    blob.extend_from_slice(&[0, 0, 0, 17]);
    blob.extend_from_slice(b"/admin/newsletter");
    assert_eq!(snapshot.headers, blob);
    assert_eq!(snapshot.body, vec![1, 2, 3]);
}

#[test]
fn decode_gives_back_what_encode_took() {
    let response = HttpResponse {
        status: 200,
        headers: vec![
            header("set-cookie", "a=1"),
            header("content-type", "text/html"),
            header("set-cookie", "b=2"),
            header("x-empty", ""),
        ],
        body: b"<p>hello</p>".to_vec(),
    };
    let snapshot = encode(&response).unwrap();
    assert_eq!(decode(&snapshot), Ok(response));
}

#[test]
fn encode_rejects_a_status_that_is_no_status_code() {
    let response = HttpResponse { status: 99, headers: vec![], body: vec![] };
    assert_eq!(encode(&response), Err(CodecError::InvalidStatus));
    let response = HttpResponse { status: 1000, headers: vec![], body: vec![] };
    assert_eq!(encode(&response), Err(CodecError::InvalidStatus));
}

#[test]
fn decode_rejects_a_status_that_is_no_status_code() {
    let snapshot = ResponseSnapshot { status_code: -1, headers: vec![], body: vec![] };
    assert_eq!(decode(&snapshot), Err(CodecError::InvalidStatus));
}

#[test]
fn decode_rejects_a_truncated_header_blob() {
    let snapshot =
        ResponseSnapshot { status_code: 200, headers: vec![0, 0, 0, 2, b'a'], body: vec![] };
    assert_eq!(decode(&snapshot), Err(CodecError::MalformedHeaders));
    let snapshot =
        ResponseSnapshot { status_code: 200, headers: vec![0, 0, 0, 1, b'a'], body: vec![] };
    assert_eq!(decode(&snapshot), Err(CodecError::MalformedHeaders));
    let snapshot = ResponseSnapshot { status_code: 200, headers: vec![0, 0, 1], body: vec![] };
    assert_eq!(decode(&snapshot), Err(CodecError::MalformedHeaders));
}

#[test]
fn decode_reads_a_header_with_an_empty_name_and_value() {
    let snapshot = ResponseSnapshot {
        status_code: 204,
        headers: vec![0, 0, 0, 0, 0, 0, 0, 0],
        body: vec![],
    };
    let response = decode(&snapshot).unwrap();
    assert_eq!(response.status, 204);
    assert_eq!(response.headers, vec![header("", "")]);
}
