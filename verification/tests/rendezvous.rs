//! Signing, checking and publishing rendezvous configs.

use std::cell::RefCell;

use rand_chacha::rand_core::SeedableRng;
use xaeroflux::rendezvous::{
    canonical_bytes, publish_signed, published_bytes, read_signature, sign_config, verify_config,
    BootstrapInfo, ConfigSink, FileSink, RendezvousConfig, SignedRendezvousConfig, SinkError,
    VerifyError,
};
use xaeroflux::rendezvous_read::{read_signed, read_signed_sections};
use xaeroflux::XaeroFlux;

const RELAY: &str = "https://quic.dev.cyan.blockxaero.io";
const TS: u64 = 1_700_000_000;

fn key(seed: u8) -> iroh::SecretKey {
    let mut rng = rand_chacha::ChaCha8Rng::from_seed([seed; 32]);
    iroh::SecretKey::generate(&mut rng)
}

fn sample_config(node_id: String) -> RendezvousConfig {
    RendezvousConfig {
        env: "dev".to_string(),
        discovery_key: "cyan-dev".to_string(),
        bootstrap: BootstrapInfo {
            node_id,
            addr: vec!["127.0.0.1:4242".to_string()],
        },
        relay_url: Some("https://quic.dev.cyan.blockxaero.io".to_string()),
        ts: 1_700_000_000,
    }
}

#[test]
fn sign_then_verify_roundtrips() {
    let sk = key(1);
    let signed = sign_config(sample_config(sk.public().to_string()), &sk.to_bytes());
    assert_eq!(signed.signer, sk.public().to_string());
    verify_config(&signed).expect("verify");
}

#[test]
fn tampered_config_fails_verification() {
    let sk = key(2);
    let mut signed = sign_config(sample_config(sk.public().to_string()), &sk.to_bytes());
    signed.config.bootstrap.addr = vec!["10.0.0.1:9999".to_string()];
    assert!(verify_config(&signed).is_err(), "tampered config must not verify");
}

#[test]
fn wrong_signer_fails_verification() {
    let sk = key(3);
    let other = key(4);
    let mut signed = sign_config(sample_config(sk.public().to_string()), &sk.to_bytes());
    signed.signer = other.public().to_string();
    assert!(verify_config(&signed).is_err(), "signature must not verify under a different key");
}

#[test]
fn canonical_bytes_are_compact_json_in_field_order() {
    let config = sample_config("ab".to_string());
    let expected = concat(&[
        "{\"env\":\"dev\",\"discovery_key\":\"cyan-dev\",",
        "\"bootstrap\":{\"node_id\":\"ab\",\"addr\":[\"127.0.0.1:4242\"]},",
        "\"relay_url\":\"https://quic.dev.cyan.blockxaero.io\",\"ts\":1700000000}",
    ]);
    assert_eq!(canonical_bytes(&config), expected.into_bytes());
}

#[test]
fn canonical_bytes_without_relay_or_addresses() {
    let mut config = sample_config("ab".to_string());
    config.relay_url = None;
    config.bootstrap.addr = vec![];
    config.ts = 0;
    let expected = concat(&[
        "{\"env\":\"dev\",\"discovery_key\":\"cyan-dev\",",
        "\"bootstrap\":{\"node_id\":\"ab\",\"addr\":[]},\"relay_url\":null,\"ts\":0}",
    ]);
    assert_eq!(canonical_bytes(&config), expected.into_bytes());
}

#[test]
fn canonical_bytes_escape_texts() {
    let mut config = sample_config("ab".to_string());
    config.env = "a\"b\\c\u{8}\t\n\u{c}\r\u{1}\u{1f}é🌀".to_string();
    let bytes = canonical_bytes(&config);
    let value: serde_json::Value = serde_json::from_slice(&bytes).expect("parses");
    assert_eq!(value.get("env").and_then(|v| v.as_str()), Some(config.env.as_str()));
    let text = String::from_utf8(bytes).expect("is text");
    assert!(text.starts_with("{\"env\":\"a\\\"b\\\\c\\b\\t\\n\\f\\r\\u0001\\u001fé🌀\","));
}

#[test]
fn different_configs_have_different_canonical_bytes() {
    let a = sample_config("ab".to_string());
    let mut b = sample_config("ab".to_string());
    b.relay_url = None;
    let mut c = sample_config("ab".to_string());
    c.bootstrap.addr = vec!["127.0.0.1:4242\",\"x".to_string()];
    let mut d = sample_config("ab".to_string());
    d.bootstrap.addr = vec!["127.0.0.1:4242".to_string(), "x".to_string()];
    let all = [canonical_bytes(&a), canonical_bytes(&b), canonical_bytes(&c), canonical_bytes(&d)];
    for i in 0..all.len() {
        for j in 0..i {
            assert_ne!(all[i], all[j]);
        }
    }
}

#[test]
fn each_fault_gives_its_own_error() {
    let sk = key(5);
    let good = sign_config(sample_config(sk.public().to_string()), &sk.to_bytes());

    let mut bad = good.clone();
    bad.signer = "not a key".to_string();
    assert!(matches!(verify_config(&bad), Err(VerifyError::InvalidSigner { .. })));
    let error = verify_config(&bad).expect_err("no key");
    let cause = "not a key".parse::<iroh::PublicKey>().expect_err("no key");
    assert_eq!(error.message(), format!("invalid signer public key: {cause}"));

    let mut bad = good.clone();
    bad.signature = "zz".to_string();
    assert!(matches!(verify_config(&bad), Err(VerifyError::BadHex { cause }) if !cause.is_empty()));
    bad.signature = "abc".to_string();
    assert!(matches!(verify_config(&bad), Err(VerifyError::BadHex { cause }) if !cause.is_empty()));

    let mut bad = good.clone();
    bad.signature = "abcd".to_string();
    assert!(matches!(verify_config(&bad), Err(VerifyError::WrongLength)));

    let mut bad = good.clone();
    bad.config.ts += 1;
    assert!(matches!(verify_config(&bad), Err(VerifyError::Mismatch { .. })));
    let error = verify_config(&bad).expect_err("another time");
    assert_eq!(
        error.message(),
        "rendezvous signature verification failed: Invalid signature"
    );

    assert_eq!(VerifyError::BadHex { cause: "x".to_string() }.message(), "decode signature hex");
    assert_eq!(VerifyError::WrongLength.message(), "signature must be 64 bytes");
}

#[test]
fn signatures_are_read_in_either_case() {
    let sk = key(6);
    let signed = sign_config(sample_config(sk.public().to_string()), &sk.to_bytes());
    assert_eq!(signed.signature.len(), 128);
    let lower = read_signature(&signed.signature).expect("lower case");
    let upper = read_signature(&signed.signature.to_uppercase()).expect("upper case");
    assert_eq!(lower, upper);
    assert_eq!(hex::encode(lower), signed.signature);
    let bytes = canonical_bytes(&signed.config);
    assert_eq!(sk.sign(&bytes).to_bytes(), lower);

    let mut loud = signed.clone();
    loud.signature = signed.signature.to_uppercase();
    assert!(verify_config(&loud).is_ok());
}

struct MemorySink {
    held: RefCell<Option<Vec<u8>>>,
}

impl MemorySink {
    fn empty() -> Self {
        MemorySink { held: RefCell::new(None) }
    }

    fn bytes(&self) -> Vec<u8> {
        self.held.borrow().clone().expect("something is published")
    }

    fn read_signed(&self) -> SignedRendezvousConfig {
        let bytes = self.bytes();
        let value: serde_json::Value = serde_json::from_slice(&bytes).expect("parses");
        let read = read_signed(&bytes).expect("reads");
        assert_eq!(read, reparsed_by_hand(&value));
        read
    }
}

impl ConfigSink for MemorySink {
    fn publish(&self, bytes: &[u8]) -> Result<(), SinkError> {
        *self.held.borrow_mut() = Some(bytes.to_vec());
        Ok(())
    }
}

struct FullSink;

impl ConfigSink for FullSink {
    fn publish(&self, _bytes: &[u8]) -> Result<(), SinkError> {
        Err(SinkError { message: "disk full".to_string() })
    }
}

fn text(value: &serde_json::Value, path: &[&str]) -> String {
    let mut v = value;
    for p in path {
        v = v.get(*p).expect("member");
    }
    v.as_str().expect("text").to_string()
}

fn reparsed_by_hand(value: &serde_json::Value) -> SignedRendezvousConfig {
    let config = value.get("config").expect("config");
    let bootstrap = config.get("bootstrap").expect("bootstrap");
    let addr = bootstrap.get("addr").and_then(|a| a.as_array()).expect("addr");
    SignedRendezvousConfig {
        config: RendezvousConfig {
            env: text(value, &["config", "env"]),
            discovery_key: text(value, &["config", "discovery_key"]),
            bootstrap: BootstrapInfo {
                node_id: text(value, &["config", "bootstrap", "node_id"]),
                addr: addr.iter().map(|a| a.as_str().expect("text").to_string()).collect(),
            },
            relay_url: config.get("relay_url").and_then(|r| r.as_str()).map(|r| r.to_string()),
            ts: config.get("ts").and_then(|t| t.as_u64()).expect("ts"),
        },
        signer: text(value, &["signer"]),
        signature: text(value, &["signature"]),
    }
}

fn publish_to(xf: &XaeroFlux, sink: &MemorySink) -> SignedRendezvousConfig {
    let direct = vec!["127.0.0.1:4242".to_string(), "[::1]:4242".to_string()];
    let signed =
        xf.signed_rendezvous_config("test", Some(RELAY.to_string()), TS, direct, &vec![]);
    publish_signed(sink, &signed).expect("publish signed config");
    signed
}

#[test]
fn published_config_is_signed_and_verifiable() {
    let xf = XaeroFlux::from_key("cyan-test".to_string(), key(7).to_bytes());
    let sink = MemorySink::empty();
    let signed = publish_to(&xf, &sink);
    let published = sink.read_signed();

    assert_eq!(published, signed, "what is read is what was published");
    assert_eq!(published.signer, xf.node_id, "a node signs its own config");
    assert_eq!(published.config.bootstrap.node_id, xf.node_id);
    assert_eq!(published.config.discovery_key, "cyan-test");
    verify_config(&published).expect("published config must verify");

    let mut tampered = published.clone();
    tampered.config.bootstrap.addr = vec!["10.0.0.1:9999".to_string()];
    assert!(verify_config(&tampered).is_err(), "tampered config must fail verification");
}

#[test]
fn published_config_carries_address_and_relay() {
    let xf = XaeroFlux::from_key("cyan-prod".to_string(), key(8).to_bytes());
    let sink = MemorySink::empty();
    publish_to(&xf, &sink);
    let published = sink.read_signed();
    assert_eq!(published.config.env, "test");
    assert_eq!(published.config.discovery_key, "cyan-prod");
    assert_eq!(published.config.relay_url.as_deref(), Some(RELAY));
    assert_eq!(published.config.bootstrap.addr, vec!["127.0.0.1:4242", "[::1]:4242"]);
    assert_eq!(published.config.ts, TS);
}

#[test]
fn republishing_reflects_a_new_identity() {
    let sink = MemorySink::empty();
    let a = XaeroFlux::from_key("cyan-test".to_string(), key(9).to_bytes());
    publish_to(&a, &sink);
    let b = XaeroFlux::from_key("cyan-test".to_string(), key(10).to_bytes());
    publish_to(&b, &sink);
    assert_ne!(a.node_id, b.node_id);
    let published = sink.read_signed();
    assert_eq!(published.config.bootstrap.node_id, b.node_id);
    assert_eq!(published.signer, b.node_id);
    verify_config(&published).expect("republished config must verify under the new key");
}

#[test]
fn what_the_sink_says_is_handed_on() {
    let sk = key(11);
    let signed = sign_config(sample_config(sk.public().to_string()), &sk.to_bytes());
    let error = publish_signed(&FullSink, &signed).expect_err("the sink is full");
    assert_eq!(error.message, "disk full");
}

#[test]
fn published_bytes_are_indented() {
    let signed = SignedRendezvousConfig {
        config: sample_config("ab".to_string()),
        signer: "s".to_string(),
        signature: "t".to_string(),
    };
    let expected = concat(&[
        "{\n",
        "  \"config\": {\n",
        "    \"env\": \"dev\",\n",
        "    \"discovery_key\": \"cyan-dev\",\n",
        "    \"bootstrap\": {\n",
        "      \"node_id\": \"ab\",\n",
        "      \"addr\": [\n",
        "        \"127.0.0.1:4242\"\n",
        "      ]\n",
        "    },\n",
        "    \"relay_url\": \"https://quic.dev.cyan.blockxaero.io\",\n",
        "    \"ts\": 1700000000\n",
        "  },\n",
        "  \"signer\": \"s\",\n",
        "  \"signature\": \"t\"\n",
        "}",
    ]);
    assert_eq!(String::from_utf8(published_bytes(&signed)).expect("is text"), expected);
}

#[test]
fn published_bytes_keep_empty_lists_on_their_line() {
    let mut signed = SignedRendezvousConfig {
        config: sample_config("ab".to_string()),
        signer: "s".to_string(),
        signature: "t".to_string(),
    };
    signed.config.bootstrap.addr = vec![];
    signed.config.relay_url = None;
    let text = String::from_utf8(published_bytes(&signed)).expect("is text");
    assert!(text.contains("      \"addr\": []\n    },\n    \"relay_url\": null,\n"));
}

#[test]
fn the_relay_falls_back_to_the_first_observed_one() {
    let xf = XaeroFlux::from_key("cyan-test".to_string(), key(12).to_bytes());
    let observed = vec!["https://one.".to_string(), "https://two.".to_string()];
    let given =
        xf.signed_rendezvous_config("dev", Some("https://mine".to_string()), 1, vec![], &observed);
    assert_eq!(given.config.relay_url.as_deref(), Some("https://mine"));
    let first = xf.signed_rendezvous_config("dev", None, 1, vec![], &observed);
    assert_eq!(first.config.relay_url.as_deref(), Some("https://one."));
    let none = xf.signed_rendezvous_config("dev", None, 1, vec![], &vec![]);
    assert_eq!(none.config.relay_url, None);
}

#[test]
fn a_file_sink_holds_its_path() {
    assert_eq!(FileSink::new("/tmp/rendezvous.json".to_string()).path, "/tmp/rendezvous.json");
}

fn concat(parts: &[&str]) -> String {
    let mut s = String::new();
    for p in parts {
        s.push_str(p);
    }
    s
}

#[test]
fn a_node_publishes_itself_as_of_now() {
    let xf = XaeroFlux::from_key("cyan-test".to_string(), key(13).to_bytes());
    let sink = MemorySink::empty();
    let relays = vec!["https://observed.".to_string()];
    xf.publish_rendezvous(&sink, "prod", None, vec!["1.2.3.4:5".to_string()], &relays)
        .expect("published");
    let published = sink.read_signed();
    assert_eq!(published.config.env, "prod");
    assert_eq!(published.config.bootstrap.addr, vec!["1.2.3.4:5".to_string()]);
    assert_eq!(published.config.relay_url.as_deref(), Some("https://observed."));
    assert!(published.config.ts > 1_600_000_000);
    verify_config(&published).expect("verifies");
    assert!(xf.publish_rendezvous(&FullSink, "prod", None, vec![], &vec![]).is_err());
}

#[test]
fn what_is_published_reads_back() {
    for relay_url in [None, Some("https://r\"/".to_string())] {
        for addr in [vec![], vec!["a".to_string()], vec!["\n".to_string(), String::new()]] {
            let signed = SignedRendezvousConfig {
                config: RendezvousConfig {
                    env: "é🌀\\".to_string(),
                    discovery_key: String::new(),
                    bootstrap: BootstrapInfo { node_id: "n".to_string(), addr: addr.clone() },
                    relay_url: relay_url.clone(),
                    ts: u64::MAX,
                },
                signer: "s".to_string(),
                signature: "t".to_string(),
            };
            assert_eq!(read_signed(&published_bytes(&signed)), Some(signed));
        }
    }
}

#[test]
fn other_texts_are_no_signed_configs() {
    let signed = SignedRendezvousConfig {
        config: sample_config("ab".to_string()),
        signer: "s".to_string(),
        signature: "t".to_string(),
    };
    let text = String::from_utf8(published_bytes(&signed)).expect("is text");
    let broken = [
        String::new(),
        "{}".to_string(),
        "null".to_string(),
        text.replace("\"env\"", "\"other\""),
        text.replace("\"bootstrap\"", "\"other\""),
        text.replace("\"127.0.0.1:4242\"", "1"),
        text.replace("1700000000", "-1"),
        text.replace("\"s\"", "null"),
        text.replace("\"https://quic.dev.cyan.blockxaero.io\"", "7"),
    ];
    for other in &broken {
        assert_eq!(read_signed(other.as_bytes()), None);
    }
    let without_relay =
        text.replace("\"relay_url\": \"https://quic.dev.cyan.blockxaero.io\",", "");
    let read = read_signed(without_relay.as_bytes()).expect("a relay may be missing");
    assert_eq!(read.config.relay_url, None);
    assert_eq!(read_signed_sections(&vec![], &vec![], &vec![]), None);
}
