//! The signed rendezvous config that a bootstrap node publishes.
//!
//! A bootstrap node knows its own identifier, its addresses, its discovery key and its relay. It
//! signs them with its own key and publishes them to a sink, so that applications can fetch the
//! config, check the signature and pin the identifier. A config that a node publishes of itself
//! certifies itself: its signer is the node that it names.

use vstd::prelude::*;
use vstd::utf8::{encode_utf8, encode_utf8_decode_utf8};

use crate::digest::lower_hex;
use crate::hex_text::{hex_bytes, hex_decode, hex_encode, hex_fault, is_hex, law_hex_reads_back};
use crate::identity::{
    ed25519_fault, ed25519_public, ed25519_signature, ed25519_valid, has_neutral_nonce, node_id_of,
    node_key_of, node_key_result, parse_node_id, sign, verify,
};
use crate::json::{
    member, number_member, object, optional, optional_text_member, text_list, text_list_member,
    text_member, written, written_member, Json,
};
use crate::json_pretty::{
    member_line, pretty, pretty_member, pretty_object, pretty_text_list, pretty_text_member,
};
use crate::json_unique::{law_pretty_form_is_unique, law_written_form_is_unique};
use crate::text::{decimal_text, joined, opt_text, texts};

verus! {

/// How a bootstrap node is reached.
#[derive(Debug, Clone, PartialEq, Eq)]
pub struct BootstrapInfo {
    /// The node's identifier, the public key that applications pin.
    pub node_id: String,
    /// Its direct addresses. There may be none where only a relay reaches it.
    pub addr: Vec<String>,
}

/// What applications fetch to find a bootstrap node.
#[derive(Debug, Clone, PartialEq, Eq)]
pub struct RendezvousConfig {
    /// The deployment, such as `dev` or `prod`.
    pub env: String,
    /// The discovery key of the mesh that the node serves.
    pub discovery_key: String,
    pub bootstrap: BootstrapInfo,
    /// The relay that the node uses.
    pub relay_url: Option<String>,
    /// When the config was published, in seconds since the Unix epoch. The newer one wins.
    pub ts: u64,
}

/// A config and the signature of its canonical text.
#[derive(Debug, Clone, PartialEq, Eq)]
pub struct SignedRendezvousConfig {
    pub config: RendezvousConfig,
    /// The public key of the signer, in hexadecimal.
    pub signer: String,
    /// The signature, in hexadecimal.
    pub signature: String,
}

/// The model of a [`RendezvousConfig`].
#[verifier::ext_equal]
pub struct ConfigModel {
    pub env: Seq<char>,
    pub discovery_key: Seq<char>,
    pub node_id: Seq<char>,
    pub addr: Seq<Seq<char>>,
    pub relay_url: Option<Seq<char>>,
    pub ts: u64,
}

impl View for RendezvousConfig {
    type V = ConfigModel;

    open spec fn view(&self) -> ConfigModel {
        ConfigModel {
            env: self.env@,
            discovery_key: self.discovery_key@,
            node_id: self.bootstrap.node_id@,
            addr: texts(self.bootstrap.addr@),
            relay_url: opt_text(self.relay_url),
            ts: self.ts,
        }
    }
}

/// The JSON value of a config's way to its node.
pub open spec fn bootstrap_value(c: ConfigModel) -> Json {
    Json::Object(seq![("node_id"@, Json::Text(c.node_id)), ("addr"@, text_list(c.addr))])
}

/// The JSON value of a config.
pub open spec fn config_value(c: ConfigModel) -> Json {
    Json::Object(
        seq![
            ("env"@, Json::Text(c.env)),
            ("discovery_key"@, Json::Text(c.discovery_key)),
            ("bootstrap"@, bootstrap_value(c)),
            ("relay_url"@, optional(c.relay_url)),
            ("ts"@, Json::Number(c.ts as int)),
        ],
    )
}

/// What is signed: the written form of a config.
pub open spec fn canonical(c: ConfigModel) -> Seq<u8> {
    encode_utf8(written(config_value(c)))
}

fn bootstrap_text(info: &BootstrapInfo, Ghost(c): Ghost<ConfigModel>) -> (r: String)
    requires
        c.node_id == info.node_id@,
        c.addr == texts(info.addr@),
    ensures
        r@ == written(bootstrap_value(c)),
{
    let ghost v = bootstrap_value(c);
    let mut m: Vec<String> = Vec::new();
    m.push(text_member("node_id", info.node_id.as_str()));
    m.push(text_list_member("addr", &info.addr));
    assert(texts(m@) =~= v->Object_0.map_values(|m: (Seq<char>, Json)| written_member(m)));
    object(&m, Ghost(v))
}

fn config_text(config: &RendezvousConfig) -> (r: String)
    ensures
        r@ == written(config_value(config@)),
{
    let ghost v = config_value(config@);
    let bootstrap: String = bootstrap_text(&config.bootstrap, Ghost(config@));
    let mut m: Vec<String> = Vec::new();
    m.push(text_member("env", config.env.as_str()));
    m.push(text_member("discovery_key", config.discovery_key.as_str()));
    m.push(member("bootstrap", bootstrap.as_str(), Ghost(bootstrap_value(config@))));
    m.push(optional_text_member("relay_url", &config.relay_url));
    m.push(number_member("ts", config.ts));
    assert(texts(m@) =~= v->Object_0.map_values(|m: (Seq<char>, Json)| written_member(m)));
    object(&m, Ghost(v))
}

/// The bytes of a config that are signed.
pub fn canonical_bytes(config: &RendezvousConfig) -> (r: Vec<u8>)
    ensures
        r@ == canonical(config@),
{
    let text: String = config_text(config);
    text.as_str().as_bytes_vec()
}

proof fn lemma_config_value_injective(a: ConfigModel, b: ConfigModel)
    requires
        config_value(a) == config_value(b),
    ensures
        a == b,
{
    let x = config_value(a)->Object_0;
    let y = config_value(b)->Object_0;
    assert(x[0] == y[0] && x[1] == y[1] && x[2] == y[2] && x[3] == y[3] && x[4] == y[4]);
    let p = bootstrap_value(a)->Object_0;
    let q = bootstrap_value(b)->Object_0;
    assert(p[0] == q[0] && p[1] == q[1]);
    let m = text_list(a.addr)->List_0;
    let n = text_list(b.addr)->List_0;
    assert(m.len() == a.addr.len() && n.len() == b.addr.len());
    assert forall|i: int| 0 <= i < a.addr.len() implies a.addr[i] == b.addr[i] by {
        assert(m[i] == Json::Text(a.addr[i]));
        assert(n[i] == Json::Text(b.addr[i]));
    }
    assert(a.addr =~= b.addr);
}

/// No two configs have the same bytes to sign: a signature covers everything that a config says.
pub proof fn law_canonical_bytes_tell_config(a: ConfigModel, b: ConfigModel)
    requires
        canonical(a) == canonical(b),
    ensures
        a == b,
{
    encode_utf8_decode_utf8(written(config_value(a)));
    encode_utf8_decode_utf8(written(config_value(b)));
    law_written_form_is_unique(config_value(a), config_value(b));
    lemma_config_value_injective(a, b);
}

// ---------------------------------------------------------------------------------------------
// Signing
// ---------------------------------------------------------------------------------------------

/// Signs a config with the secret key of a node.
pub fn sign_config(config: RendezvousConfig, secret_key: &[u8; 32]) -> (r: SignedRendezvousConfig)
    ensures
        r.config == config,
        r.signer@ == lower_hex(ed25519_public(secret_key@)),
        node_key_of(r.signer@) == Some(ed25519_public(secret_key@)),
        r.signature@ == lower_hex(ed25519_signature(secret_key@, canonical(config@))),
        !has_neutral_nonce(ed25519_signature(secret_key@, canonical(config@))) ==> verdict(r) is Ok,
{
    let bytes: Vec<u8> = canonical_bytes(&config);
    let signature: [u8; 64] = sign(secret_key, bytes.as_slice());
    let signer: String = node_id_of(secret_key);
    proof {
        law_hex_reads_back(signature@);
    }
    SignedRendezvousConfig { config, signer, signature: hex_encode(signature.as_slice()) }
}

/// Why a signed config is not accepted.
#[derive(Debug)]
pub enum VerifyError {
    /// The signer is no public key. The cause says what is wrong with its text.
    InvalidSigner { cause: String },
    /// The signature is not hexadecimal. The cause says what is wrong with its text.
    BadHex { cause: String },
    /// The signature does not have 64 bytes.
    WrongLength,
    /// The signature is not one of this config by this signer. The cause is what the check said.
    Mismatch { cause: String },
}

/// The model of a [`VerifyError`].
pub enum VerifyErrorModel {
    InvalidSigner { cause: Seq<char> },
    BadHex { cause: Seq<char> },
    WrongLength,
    Mismatch { cause: Seq<char> },
}

impl View for VerifyError {
    type V = VerifyErrorModel;

    open spec fn view(&self) -> VerifyErrorModel {
        match *self {
            VerifyError::InvalidSigner { cause } => VerifyErrorModel::InvalidSigner {
                cause: cause@,
            },
            VerifyError::BadHex { cause } => VerifyErrorModel::BadHex { cause: cause@ },
            VerifyError::WrongLength => VerifyErrorModel::WrongLength,
            VerifyError::Mismatch { cause } => VerifyErrorModel::Mismatch { cause: cause@ },
        }
    }
}

/// An error in words. What is wrong with the digits of a signature is in the error, and not in its
/// words.
pub open spec fn error_text(e: VerifyErrorModel) -> Seq<char> {
    match e {
        VerifyErrorModel::InvalidSigner { cause } => "invalid signer public key: "@ + cause,
        VerifyErrorModel::BadHex { .. } => "decode signature hex"@,
        VerifyErrorModel::WrongLength => "signature must be 64 bytes"@,
        VerifyErrorModel::Mismatch { cause } => "rendezvous signature verification failed: "@
            + cause,
    }
}

impl VerifyError {
    /// The error in words.
    pub fn message(&self) -> (r: String)
        ensures
            r@ == error_text(self@),
    {
        match self {
            VerifyError::InvalidSigner { cause } => joined(
                "invalid signer public key: ",
                cause.as_str(),
            ),
            VerifyError::BadHex { .. } => "decode signature hex".to_owned(),
            VerifyError::WrongLength => "signature must be 64 bytes".to_owned(),
            VerifyError::Mismatch { cause } => joined(
                "rendezvous signature verification failed: ",
                cause.as_str(),
            ),
        }
    }
}

/// What is said of the text of a signature: it must be 64 bytes in hexadecimal.
pub open spec fn signature_in(text: Seq<char>) -> Result<Seq<u8>, VerifyErrorModel> {
    if !is_hex(text) {
        Err(VerifyErrorModel::BadHex { cause: hex_fault(text) })
    } else if text.len() != 128 {
        Err(VerifyErrorModel::WrongLength)
    } else {
        Ok(hex_bytes(text))
    }
}

/// What is said of a signed config. The first thing that is wrong with it counts.
pub open spec fn verdict(signed: SignedRendezvousConfig) -> Result<(), VerifyErrorModel> {
    match (node_key_result(signed.signer@), signature_in(signed.signature@)) {
        (Err(cause), _) => Err(VerifyErrorModel::InvalidSigner { cause }),
        (_, Err(e)) => Err(e),
        (Ok(key), Ok(signature)) => {
            let message = canonical(signed.config@);
            if ed25519_valid(key, message, signature) {
                Ok(())
            } else {
                Err(VerifyErrorModel::Mismatch { cause: ed25519_fault(key, message, signature) })
            }
        },
    }
}

/// Reads the text of a signature.
pub fn read_signature(text: &str) -> (r: Result<[u8; 64], VerifyError>)
    ensures
        match r {
            Ok(s) => signature_in(text@) == Ok::<Seq<u8>, VerifyErrorModel>(s@),
            Err(e) => signature_in(text@) == Err::<Seq<u8>, VerifyErrorModel>(e@),
        },
{
    let bytes: Vec<u8> = match hex_decode(text) {
        Ok(bytes) => bytes,
        Err(cause) => return Err(VerifyError::BadHex { cause }),
    };
    if bytes.len() != 64 {
        return Err(VerifyError::WrongLength);
    }
    let mut s: [u8; 64] = [0u8; 64];
    let mut i: usize = 0;
    while i < 64
        invariant
            i <= 64,
            bytes@.len() == 64,
            forall|j: int| 0 <= j < i ==> s@[j] == bytes@[j],
        decreases 64 - i,
    {
        s[i] = bytes[i];
        i += 1;
    }
    assert(s@ =~= bytes@);
    Ok(s)
}

/// Checks a signed config: its signature must be one of its canonical bytes by its signer. Whether
/// the signer is trusted is for the caller to decide.
pub fn verify_config(signed: &SignedRendezvousConfig) -> (r: Result<(), VerifyError>)
    ensures
        match r {
            Ok(_) => verdict(*signed) is Ok,
            Err(e) => verdict(*signed) == Err::<(), VerifyErrorModel>(e@),
        },
{
    let key: [u8; 32] = match parse_node_id(signed.signer.as_str()) {
        Ok(key) => key,
        Err(cause) => return Err(VerifyError::InvalidSigner { cause }),
    };
    let signature: [u8; 64] = match read_signature(signed.signature.as_str()) {
        Ok(s) => s,
        Err(e) => return Err(e),
    };
    let bytes: Vec<u8> = canonical_bytes(&signed.config);
    match verify(&key, bytes.as_slice(), &signature) {
        Ok(_) => Ok(()),
        Err(cause) => Err(VerifyError::Mismatch { cause }),
    }
}

// ---------------------------------------------------------------------------------------------
// Publishing
// ---------------------------------------------------------------------------------------------

/// The JSON value of a signed config.
pub open spec fn signed_value(s: SignedRendezvousConfig) -> Json {
    Json::Object(
        seq![
            ("config"@, config_value(s.config@)),
            ("signer"@, Json::Text(s.signer@)),
            ("signature"@, Json::Text(s.signature@)),
        ],
    )
}

/// What is published of a signed config: its JSON, laid out for people.
pub open spec fn published(s: SignedRendezvousConfig) -> Seq<u8> {
    encode_utf8(pretty(signed_value(s), 0))
}

fn pretty_bootstrap(info: &BootstrapInfo, Ghost(c): Ghost<ConfigModel>) -> (r: String)
    requires
        c.node_id == info.node_id@,
        c.addr == texts(info.addr@),
    ensures
        r@ == pretty(bootstrap_value(c), 2),
{
    let ghost v = bootstrap_value(c);
    let mut m: Vec<String> = Vec::new();
    m.push(pretty_text_member("node_id", info.node_id.as_str(), 3));
    m.push(
        pretty_member(
            "addr",
            pretty_text_list(&info.addr, 3).as_str(),
            3,
            Ghost(text_list(c.addr)),
        ),
    );
    assert(texts(m@) =~= v->Object_0.map_values(|m: (Seq<char>, Json)| member_line(m, 3)));
    pretty_object(&m, 2, Ghost(v))
}

fn pretty_config(config: &RendezvousConfig) -> (r: String)
    ensures
        r@ == pretty(config_value(config@), 1),
{
    let ghost v = config_value(config@);
    let bootstrap: String = pretty_bootstrap(&config.bootstrap, Ghost(config@));
    let ts: String = decimal_text(config.ts);
    let mut m: Vec<String> = Vec::new();
    m.push(pretty_text_member("env", config.env.as_str(), 2));
    m.push(pretty_text_member("discovery_key", config.discovery_key.as_str(), 2));
    m.push(pretty_member("bootstrap", bootstrap.as_str(), 2, Ghost(bootstrap_value(config@))));
    m.push(
        match &config.relay_url {
            Some(url) => pretty_text_member("relay_url", url.as_str(), 2),
            None => pretty_member("relay_url", "null", 2, Ghost(Json::Null)),
        },
    );
    m.push(pretty_member("ts", ts.as_str(), 2, Ghost(Json::Number(config.ts as int))));
    assert(texts(m@) =~= v->Object_0.map_values(|m: (Seq<char>, Json)| member_line(m, 2)));
    pretty_object(&m, 1, Ghost(v))
}

/// What is published of a signed config.
pub fn published_bytes(signed: &SignedRendezvousConfig) -> (r: Vec<u8>)
    ensures
        r@ == published(*signed),
{
    let ghost v = signed_value(*signed);
    let config: String = pretty_config(&signed.config);
    let mut m: Vec<String> = Vec::new();
    m.push(pretty_member("config", config.as_str(), 1, Ghost(config_value(signed.config@))));
    m.push(pretty_text_member("signer", signed.signer.as_str(), 1));
    m.push(pretty_text_member("signature", signed.signature.as_str(), 1));
    assert(texts(m@) =~= v->Object_0.map_values(|m: (Seq<char>, Json)| member_line(m, 1)));
    let text: String = pretty_object(&m, 0, Ghost(v));
    text.as_str().as_bytes_vec()
}

/// What is published tells the config, its signer and its signature: two signed configs that are
/// published alike say the same, and so are judged alike.
pub proof fn law_published_bytes_tell_signed_config(
    a: SignedRendezvousConfig,
    b: SignedRendezvousConfig,
)
    requires
        published(a) == published(b),
    ensures
        a.config@ == b.config@,
        a.signer@ == b.signer@,
        a.signature@ == b.signature@,
        verdict(a) == verdict(b),
{
    encode_utf8_decode_utf8(pretty(signed_value(a), 0));
    encode_utf8_decode_utf8(pretty(signed_value(b), 0));
    law_pretty_form_is_unique(signed_value(a), signed_value(b));
    let x = signed_value(a)->Object_0;
    let y = signed_value(b)->Object_0;
    assert(x[0] == y[0] && x[1] == y[1] && x[2] == y[2]);
    lemma_config_value_injective(a.config@, b.config@);
}

/// Why a sink did not take a config.
#[derive(Debug)]
pub struct SinkError {
    pub message: String,
}

/// Where signed configs are published to: a file, or whatever a deployment serves them from.
pub trait ConfigSink {
    /// Publishes the bytes of a signed config in place of what was published before.
    fn publish(&self, bytes: &[u8]) -> (r: Result<(), SinkError>);
}

/// A sink that is a file. It is written by the program around this library.
#[derive(Debug)]
pub struct FileSink {
    pub path: String,
}

impl FileSink {
    /// The sink that is the file at a path.
    pub fn new(path: String) -> (r: Self)
        ensures
            r.path == path,
    {
        FileSink { path }
    }
}

/// Publishes a signed config to a sink. What the sink says is handed on.
pub fn publish_signed<S: ConfigSink>(sink: &S, signed: &SignedRendezvousConfig) -> (r: Result<
    (),
    SinkError,
>)
    ensures
        exists|bytes: &[u8]|
            bytes@ == published(*signed) && #[trigger] call_ensures(S::publish, (sink, bytes), r),
{
    let bytes: Vec<u8> = published_bytes(signed);
    sink.publish(bytes.as_slice())
}

} // verus!
