use ngram::message::{Request, Response};

fn request_round_trip(r: Request) {
    let bytes = r.to_bytes();
    assert_eq!(Request::from_bytes(&bytes), Some(r));
}

fn response_round_trip(r: Response) {
    let bytes = r.to_bytes();
    assert_eq!(Response::from_bytes(&bytes), Some(r));
}

#[test]
fn round_trip_publish() {
    request_round_trip(Request::Publish { doc: String::from("hello world") });
}

#[test]
fn round_trip_publish_empty_doc() {
    request_round_trip(Request::Publish { doc: String::new() });
}

#[test]
fn round_trip_publish_non_ascii() {
    request_round_trip(Request::Publish { doc: String::from("h\u{e9}llo w\u{f6}rld \u{1f600}") });
}

#[test]
fn round_trip_search() {
    request_round_trip(Request::Search { word: String::from("hello") });
}

#[test]
fn round_trip_retrieve() {
    request_round_trip(Request::Retrieve { id: 0 });
    request_round_trip(Request::Retrieve { id: 7 });
    request_round_trip(Request::Retrieve { id: u64::MAX });
}

#[test]
fn round_trip_publish_success() {
    response_round_trip(Response::PublishSuccess(0));
    response_round_trip(Response::PublishSuccess(u64::MAX));
}

#[test]
fn round_trip_search_success() {
    response_round_trip(Response::SearchSuccess(vec![]));
    response_round_trip(Response::SearchSuccess(vec![5]));
    response_round_trip(Response::SearchSuccess(vec![1, 2, 3, u64::MAX]));
}

#[test]
fn round_trip_retrieve_success() {
    response_round_trip(Response::RetrieveSuccess(String::from("goodbye")));
    response_round_trip(Response::RetrieveSuccess(String::new()));
}

#[test]
fn round_trip_failure() {
    response_round_trip(Response::Failure);
}

#[test]
fn publish_exact_bytes() {
    let r = Request::Publish { doc: String::from("hi") };
    assert_eq!(r.to_bytes(), vec![0, 0, 0, 3, 0, b'h', b'i']);
}

#[test]
fn retrieve_exact_bytes() {
    let r = Request::Retrieve { id: 7 };
    assert_eq!(r.to_bytes(), vec![0, 0, 0, 9, 2, 0, 0, 0, 0, 0, 0, 0, 7]);
}

#[test]
fn retrieve_exact_bytes_large_id() {
    let r = Request::Retrieve { id: 0x0102_0304_0506_0708 };
    assert_eq!(r.to_bytes(), vec![0, 0, 0, 9, 2, 1, 2, 3, 4, 5, 6, 7, 8]);
}

#[test]
fn search_success_exact_bytes() {
    let r = Response::SearchSuccess(vec![5, 258]);
    assert_eq!(
        r.to_bytes(),
        vec![0, 0, 0, 17, 1, 0, 0, 0, 0, 0, 0, 0, 5, 0, 0, 0, 0, 0, 0, 1, 2]
    );
}

#[test]
fn failure_exact_bytes() {
    assert_eq!(Response::Failure.to_bytes(), vec![0, 0, 0, 1, 3]);
}

#[test]
fn try_to_bytes_matches_to_bytes() {
    let r = Request::Search { word: String::from("needle") };
    assert_eq!(r.try_to_bytes(), Some(r.to_bytes()));
    let s = Response::RetrieveSuccess(String::from("doc"));
    assert_eq!(s.try_to_bytes(), Some(s.to_bytes()));
}

#[test]
fn truncated_stream_is_rejected() {
    assert_eq!(Request::from_bytes(&vec![]), None);
    assert_eq!(Response::from_bytes(&vec![]), None);
    // The length field itself is cut short.
    assert_eq!(Request::from_bytes(&vec![0, 0, 0]), None);
    assert_eq!(Response::from_bytes(&vec![0, 0]), None);
    // Five payload bytes declared, only one present.
    assert_eq!(Request::from_bytes(&vec![0, 0, 0, 5, 0]), None);
    assert_eq!(Response::from_bytes(&vec![0, 0, 0, 5, 3]), None);
}

#[test]
fn empty_payload_is_rejected() {
    assert_eq!(Request::from_bytes(&vec![0, 0, 0, 0]), None);
    assert_eq!(Response::from_bytes(&vec![0, 0, 0, 0]), None);
}

#[test]
fn unknown_tag_is_rejected() {
    // Tag 3 is a response tag, not a request tag.
    assert_eq!(Request::from_bytes(&vec![0, 0, 0, 1, 3]), None);
    assert_eq!(Request::from_bytes(&vec![0, 0, 0, 2, 9, 0]), None);
    assert_eq!(Response::from_bytes(&vec![0, 0, 0, 1, 4]), None);
    assert_eq!(Response::from_bytes(&vec![0, 0, 0, 1, 255]), None);
}

#[test]
fn invalid_utf8_is_rejected() {
    assert_eq!(Request::from_bytes(&vec![0, 0, 0, 2, 0, 0xff]), None);
    assert_eq!(Request::from_bytes(&vec![0, 0, 0, 2, 1, 0xc0]), None);
    assert_eq!(Response::from_bytes(&vec![0, 0, 0, 2, 2, 0xff]), None);
}

#[test]
fn short_identifier_field_is_rejected() {
    // Retrieve declares a payload of five bytes: tag plus a four-byte
    // identifier field, shorter than the fixed eight.
    assert_eq!(Request::from_bytes(&vec![0, 0, 0, 5, 2, 0, 0, 0, 7]), None);
    assert_eq!(Response::from_bytes(&vec![0, 0, 0, 5, 0, 0, 0, 0, 7]), None);
}

#[test]
fn identifier_extra_bytes_are_ignored() {
    let data = vec![0, 0, 0, 11, 2, 0, 0, 0, 0, 0, 0, 0, 7, 9, 9];
    assert_eq!(Request::from_bytes(&data), Some(Request::Retrieve { id: 7 }));
}

#[test]
fn search_success_trailing_partial_group_is_ignored() {
    let data = vec![0, 0, 0, 13, 1, 0, 0, 0, 0, 0, 0, 0, 5, 9, 9, 9, 9];
    assert_eq!(Response::from_bytes(&data), Some(Response::SearchSuccess(vec![5])));
}

#[test]
fn failure_with_extra_payload_bytes_still_decodes() {
    assert_eq!(Response::from_bytes(&vec![0, 0, 0, 3, 3, 9, 9]), Some(Response::Failure));
}

#[test]
fn bytes_after_the_frame_are_ignored() {
    let mut data = Request::Retrieve { id: 3 }.to_bytes();
    data.extend_from_slice(&[1, 2, 3, 4]);
    assert_eq!(Request::from_bytes(&data), Some(Request::Retrieve { id: 3 }));
}
