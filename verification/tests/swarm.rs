//! Blobs: hashes, negotiation and fetching.

use xaeroflux::fetch::{DialFailure, Fetch, FetchError, FetchEvent, Phase};
use xaeroflux::swarm::{BlobHash, BlobSwarm, SwarmError, SwarmMessage};

fn blob_bytes(len: usize) -> Vec<u8> {
    (0..len).map(|i| (i % 251) as u8).collect()
}

fn node(seed: u8) -> String {
    iroh::SecretKey::from_bytes(&[seed; 32]).public().to_string()
}

#[test]
fn hashes_name_content() {
    let data = blob_bytes(4096);
    let hash = BlobHash::new(&data);
    assert_eq!(&hash.bytes, blake3::hash(&data).as_bytes());
    assert_eq!(hash, BlobHash::new(&blob_bytes(4096)));
    assert!(hash.same(&BlobHash::new(&data)));
    assert!(!hash.same(&BlobHash::new(b"other")));
    assert_eq!(hash.text(), iroh_blobs::Hash::new(&data).to_string());
    assert_eq!(
        BlobHash::new(b"").text(),
        "af1349b9f5f9a1a6a0404dea36dcc9499bcb25c9adc112b7cc9a93cae41f3262"
    );
}

#[test]
fn hashes_read_back() {
    let hash = BlobHash::new(b"content");
    assert_eq!(BlobHash::parse(&hash.text()), Ok(hash));
    assert!(BlobHash::parse(&hash.text().to_uppercase()).is_err(), "upper case is not hexadecimal");
    assert_eq!(BlobHash::parse(""), Err("Invalid length".to_string()));
    assert_eq!(BlobHash::parse("abc"), Err("Invalid length".to_string()));
    let cause = "g".repeat(64).parse::<iroh_blobs::Hash>().expect_err("no hash").to_string();
    assert_eq!(BlobHash::parse(&"g".repeat(64)), Err(cause));
    assert!(BlobHash::parse(&"é".repeat(32)).is_err());
    assert_eq!(BlobHash::parse(&"a".repeat(52)), Ok(BlobHash { bytes: [0; 32] }));
    assert!(BlobHash::parse(&"1".repeat(52)).is_err());
}

#[test]
fn negotiation_lists_the_provider() {
    let mut requester = BlobSwarm::new("requester".to_string());
    let mut provider = BlobSwarm::new("provider".to_string());
    let hash = BlobHash::new(&blob_bytes(4096));

    let question = requester.query(&hash);
    let asked = provider.on_message(&question).expect("reads").expect("asks the store");
    assert_eq!(asked, hash);
    assert_eq!(provider.answer(&asked, false), None);
    let reply = provider.answer(&asked, true).expect("held");
    assert_eq!(
        reply,
        SwarmMessage::IHave { hash: hash.text(), holder_node_id: "provider".to_string() }
    );
    assert!(requester.on_message(&reply).expect("reads").is_none());
    assert_eq!(requester.holders(&hash), vec!["provider".to_string()]);
    assert!(provider.holders(&hash).is_empty());
}

#[test]
fn a_node_does_not_list_itself_nor_anybody_twice() {
    let mut swarm = BlobSwarm::new("me".to_string());
    let hash = BlobHash::new(b"x");
    let own = swarm.announce(&hash);
    swarm.on_message(&own).expect("reads");
    assert!(swarm.holders(&hash).is_empty());
    swarm.record_holder(&hash.text(), "a");
    swarm.record_holder(&hash.text(), "b");
    swarm.record_holder(&hash.text(), "a");
    assert_eq!(swarm.holders(&hash), vec!["a".to_string(), "b".to_string()]);
    assert!(swarm.holders(&BlobHash::new(b"y")).is_empty());
    assert_eq!(swarm.node_id(), "me");
}

#[test]
fn a_question_without_a_hash_is_an_error() {
    let mut swarm = BlobSwarm::new("me".to_string());
    let question =
        SwarmMessage::WhoHas { hash: "nonsense".to_string(), requester_node_id: "r".to_string() };
    match swarm.on_message(&question) {
        Err(e) => {
            assert_eq!(e.message(), "WhoHas carried an unparseable hash: Invalid length");
            assert!(matches!(e, SwarmError::UnparseableHash { .. }));
        }
        other => panic!("{other:?}"),
    }
}

#[test]
fn messages_are_written_with_their_type() {
    let i_have = SwarmMessage::IHave { hash: "h".to_string(), holder_node_id: "n".to_string() };
    assert_eq!(i_have.text(), "{\"type\":\"IHave\",\"hash\":\"h\",\"holder_node_id\":\"n\"}");
    let who_has = SwarmMessage::WhoHas { hash: "h".to_string(), requester_node_id: "n".to_string() };
    assert_eq!(who_has.text(), "{\"type\":\"WhoHas\",\"hash\":\"h\",\"requester_node_id\":\"n\"}");
}

fn start(data: &[u8], holders: &[String]) -> Fetch {
    let swarm = BlobSwarm::new("me".to_string());
    swarm.fetch(&BlobHash::new(data), &holders.to_vec()).expect("holders are valid")
}

#[test]
fn a_holder_delivers() {
    let data = blob_bytes(512 * 1024);
    let mut fetch = start(&data, &[node(1), node(2)]);
    assert!(matches!(fetch.phase(), Phase::AskBefore));
    fetch.on_event(FetchEvent::Has(false));
    assert!(matches!(fetch.phase(), Phase::Dial));
    let first = iroh::SecretKey::from_bytes(&[1; 32]).public();
    assert_eq!(fetch.provider(), Some(*first.as_bytes()));
    fetch.on_event(FetchEvent::Dialed);
    assert!(matches!(fetch.phase(), Phase::Transfer));
    fetch.on_event(FetchEvent::Transferred);
    assert!(matches!(fetch.phase(), Phase::AskBefore));
    fetch.on_event(FetchEvent::Has(true));
    assert!(matches!(fetch.phase(), Phase::AskAfter));
    fetch.on_event(FetchEvent::Has(true));
    assert!(matches!(fetch.phase(), Phase::Get));
    fetch.on_event(FetchEvent::Content(data.clone()));
    assert_eq!(fetch.result().expect("ended").expect("fetched"), data);
}

#[test]
fn failing_holders_are_passed_over() {
    let data = blob_bytes(1000);
    let mut fetch = start(&data, &[node(1), node(2), node(3), node(4)]);
    fetch.on_event(FetchEvent::Has(false));
    fetch.on_event(FetchEvent::DialFailed(DialFailure::Failed { reason: "gone".to_string() }));
    fetch.on_event(FetchEvent::Has(false));
    fetch.on_event(FetchEvent::DialFailed(DialFailure::TimedOut));
    fetch.on_event(FetchEvent::Has(false));
    fetch.on_event(FetchEvent::Dialed);
    fetch.on_event(FetchEvent::TransferFailed { reason: "reset".to_string() });
    fetch.on_event(FetchEvent::Has(false));
    fetch.on_event(FetchEvent::Dialed);
    fetch.on_event(FetchEvent::Transferred);
    assert_eq!(fetch.provider(), None);
    fetch.on_event(FetchEvent::Has(true));
    fetch.on_event(FetchEvent::Content(data.clone()));
    assert_eq!(fetch.result().expect("ended").expect("fetched"), data);
}

#[test]
fn the_last_failure_is_the_error() {
    let hex = node(2);
    let mut fetch = start(b"x", &[node(1), node(2)]);
    fetch.on_event(FetchEvent::Has(false));
    fetch.on_event(FetchEvent::DialFailed(DialFailure::TimedOut));
    fetch.on_event(FetchEvent::Has(false));
    fetch.on_event(FetchEvent::DialFailed(DialFailure::Failed { reason: "why".to_string() }));
    fetch.on_event(FetchEvent::Has(false));
    let error = fetch.result().expect("ended").expect_err("nobody delivered");
    assert_eq!(error.message(), format!("dial holder {hex} failed: why"));
}

#[test]
fn silent_and_broken_holders_have_their_own_errors() {
    let hex = node(1);
    let mut fetch = start(b"x", &[node(1)]);
    fetch.on_event(FetchEvent::Has(false));
    fetch.on_event(FetchEvent::DialFailed(DialFailure::TimedOut));
    fetch.on_event(FetchEvent::Has(false));
    let error = fetch.result().expect("ended").expect_err("nobody delivered");
    assert_eq!(error.message(), format!("dial holder {hex} timed out (likely departed)"));

    let mut fetch = start(b"x", &[node(1)]);
    fetch.on_event(FetchEvent::Has(false));
    fetch.on_event(FetchEvent::Dialed);
    fetch.on_event(FetchEvent::TransferFailed { reason: "eof".to_string() });
    fetch.on_event(FetchEvent::Has(false));
    let error = fetch.result().expect("ended").expect_err("nobody delivered");
    assert_eq!(error.message(), format!("fetch from holder {hex} failed: eof"));
}

#[test]
fn a_blob_that_nobody_served_is_an_error() {
    let mut fetch = start(b"x", &[node(1)]);
    fetch.on_event(FetchEvent::Has(false));
    fetch.on_event(FetchEvent::Dialed);
    fetch.on_event(FetchEvent::Transferred);
    fetch.on_event(FetchEvent::Has(false));
    let error = fetch.result().expect("ended").expect_err("not there");
    let hash = BlobHash::new(b"x").text();
    assert_eq!(error.message(), format!("no holder in the set could serve {hash}"));
}

#[test]
fn other_content_is_not_handed_out() {
    let mut fetch = start(b"x", &[node(1)]);
    fetch.on_event(FetchEvent::Has(true));
    fetch.on_event(FetchEvent::Has(true));
    fetch.on_event(FetchEvent::Content(b"y".to_vec()));
    let error = fetch.result().expect("ended").expect_err("other content");
    let mut expected = String::from("integrity check failed: fetched content hashes to ");
    expected.push_str(&BlobHash::new(b"y").text());
    expected.push_str(", expected ");
    expected.push_str(&BlobHash::new(b"x").text());
    assert_eq!(error.message(), expected);
}

#[test]
fn failures_of_the_store_end_a_fetch() {
    let mut fetch = start(b"x", &[node(1)]);
    fetch.on_event(FetchEvent::HasFailed { reason: "closed".to_string() });
    let error = fetch.result().expect("ended").expect_err("store failed");
    assert_eq!(error.message(), "blob has() failed: closed");

    let mut fetch = start(b"x", &[node(1)]);
    fetch.on_event(FetchEvent::Has(true));
    fetch.on_event(FetchEvent::HasFailed { reason: "closed".to_string() });
    let error = fetch.result().expect("ended").expect_err("store failed");
    assert_eq!(error.message(), "blob has() failed: closed");

    let mut fetch = start(b"x", &[node(1)]);
    fetch.on_event(FetchEvent::Has(true));
    fetch.on_event(FetchEvent::Has(true));
    fetch.on_event(FetchEvent::GetFailed { reason: "closed".to_string() });
    let error = fetch.result().expect("ended").expect_err("store failed");
    assert_eq!(error.message(), "blob get_bytes failed: closed");
}

#[test]
fn events_that_answer_nothing_change_nothing() {
    let mut fetch = start(b"x", &[node(1)]);
    fetch.on_event(FetchEvent::Dialed);
    fetch.on_event(FetchEvent::Transferred);
    fetch.on_event(FetchEvent::Content(b"x".to_vec()));
    assert!(matches!(fetch.phase(), Phase::AskBefore));
    assert!(fetch.result().is_none());
}

#[test]
fn a_fetch_needs_valid_holders() {
    let hash = BlobHash::new(b"x");
    let error = match Fetch::start(hash, &vec![]) {
        Err(e) => e,
        Ok(_) => panic!("there are no holders"),
    };
    assert_eq!(error.message(), format!("cannot fetch {}: no holders provided", hash.text()));
    let error = match Fetch::start(hash, &vec![node(1), "who".to_string(), "what".to_string()]) {
        Err(e) => e,
        Ok(_) => panic!("the second holder is not valid"),
    };
    let cause = "who".parse::<iroh::PublicKey>().expect_err("no key");
    assert_eq!(error.message(), format!("holder id 'who' is not a valid node id: {cause}"));
    assert!(matches!(error, FetchError::InvalidHolder { .. }));
    let keys = vec![Ok([1u8; 32]), Err("why".to_string())];
    assert!(Fetch::start_with(hash, &vec!["a".to_string(), "b".to_string()], &keys).is_err());
}
