use ngram::message::{Request, Response};
use ngram::server::{process_step, response_for, ShutdownFlag, StoreReply};

#[test]
fn responses_match_the_store_answer() {
    let publish = Request::Publish { doc: String::from("d") };
    let search = Request::Search { word: String::from("w") };
    let retrieve = Request::Retrieve { id: 4 };
    assert_eq!(response_for(&publish, StoreReply::Published(9)), Response::PublishSuccess(9));
    assert_eq!(
        response_for(&search, StoreReply::Matches(vec![1, 2])),
        Response::SearchSuccess(vec![1, 2])
    );
    assert_eq!(
        response_for(&retrieve, StoreReply::Fetched(String::from("text"))),
        Response::RetrieveSuccess(String::from("text"))
    );
    assert_eq!(response_for(&retrieve, StoreReply::Missing), Response::Failure);
}

#[test]
fn mismatched_store_reply_yields_failure() {
    let publish = Request::Publish { doc: String::from("d") };
    let search = Request::Search { word: String::from("w") };
    assert_eq!(response_for(&publish, StoreReply::Matches(vec![1])), Response::Failure);
    assert_eq!(response_for(&search, StoreReply::Published(2)), Response::Failure);
    assert_eq!(response_for(&publish, StoreReply::Missing), Response::Failure);
}

#[test]
fn request_after_shutdown_gets_no_response() {
    let r = Request::Retrieve { id: 1 };
    assert_eq!(process_step(true, &r, StoreReply::Fetched(String::from("doc"))), None);
    assert_eq!(
        process_step(false, &r, StoreReply::Fetched(String::from("doc"))),
        Some(Response::RetrieveSuccess(String::from("doc")))
    );
}

#[test]
fn shutdown_flag_sets_once_and_stays() {
    let mut flag = ShutdownFlag::new();
    assert!(!flag.is_stopped());
    flag.stop();
    assert!(flag.is_stopped());
    flag.stop();
    assert!(flag.is_stopped());
}

/// A stand-in for the external document store, answering as the archive
/// contract describes: publish appends and numbers from zero, search
/// reports the identifiers of documents containing the word, retrieve
/// looks an identifier up.
fn store_answer(docs: &mut Vec<String>, request: &Request) -> StoreReply {
    match request {
        Request::Publish { doc } => {
            docs.push(doc.clone());
            StoreReply::Published((docs.len() - 1) as u64)
        }
        Request::Search { word } => {
            let ids = docs
                .iter()
                .enumerate()
                .filter(|(_, d)| d.contains(word.as_str()))
                .map(|(i, _)| i as u64)
                .collect();
            StoreReply::Matches(ids)
        }
        Request::Retrieve { id } => match docs.get(*id as usize) {
            Some(doc) => StoreReply::Fetched(doc.clone()),
            None => StoreReply::Missing,
        },
    }
}

/// Runs one request through the full path a connection sees: encode,
/// decode, dispatch against the store, encode the response, decode it.
fn exchange(docs: &mut Vec<String>, request: Request) -> Response {
    let wire = request.to_bytes();
    let received = Request::from_bytes(&wire).expect("a well-formed frame must decode");
    let reply = store_answer(docs, &received);
    let response = process_step(false, &received, reply).expect("running server must respond");
    let wire_back = response.to_bytes();
    Response::from_bytes(&wire_back).expect("a well-formed frame must decode")
}

#[test]
fn sequential_exchanges_end_to_end() {
    let mut docs: Vec<String> = Vec::new();
    assert_eq!(
        exchange(&mut docs, Request::Publish { doc: String::from("hello world") }),
        Response::PublishSuccess(0)
    );
    assert_eq!(
        exchange(&mut docs, Request::Publish { doc: String::from("goodbye") }),
        Response::PublishSuccess(1)
    );
    assert_eq!(
        exchange(&mut docs, Request::Search { word: String::from("hello") }),
        Response::SearchSuccess(vec![0])
    );
    assert_eq!(
        exchange(&mut docs, Request::Retrieve { id: 1 }),
        Response::RetrieveSuccess(String::from("goodbye"))
    );
    assert_eq!(exchange(&mut docs, Request::Retrieve { id: 5 }), Response::Failure);
}
