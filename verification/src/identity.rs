//! The identity of a node: an Ed25519 key pair. The node's identifier is its public key.

use vstd::prelude::*;

use crate::digest::lower_hex;
use crate::text::joined;

verus! {

/// The public key of a secret key.
pub uninterp spec fn ed25519_public(secret: Seq<u8>) -> Seq<u8>;

/// The signature of a message with a secret key.
pub uninterp spec fn ed25519_signature(secret: Seq<u8>, message: Seq<u8>) -> Seq<u8>;

/// Whether a signature of a message is valid under a public key.
pub uninterp spec fn ed25519_valid(key: Seq<u8>, message: Seq<u8>, signature: Seq<u8>) -> bool;

/// The public key that a text gives, where it gives one.
pub uninterp spec fn node_key_of(text: Seq<char>) -> Option<Seq<u8>>;

/// What `iroh` says of a text that gives no public key.
pub uninterp spec fn node_key_fault(text: Seq<char>) -> Seq<char>;

/// The public key that a text gives, or what is wrong with the text.
pub open spec fn node_key_result(text: Seq<char>) -> Result<Seq<u8>, Seq<char>> {
    match node_key_of(text) {
        Some(key) => Ok(key),
        None => Err(node_key_fault(text)),
    }
}

/// What `iroh` says of a signature that is not valid.
pub uninterp spec fn ed25519_fault(
    key: Seq<u8>,
    message: Seq<u8>,
    signature: Seq<u8>,
) -> Seq<char>;

/// The secret key that comes of a seed.
pub uninterp spec fn secret_key_of_seed(seed: Seq<u8>) -> Seq<u8>;

/// Whether the nonce point of a signature is the neutral element of the curve, whose encoding is a
/// one followed by zeros. Strict verification rejects such a signature, whoever made it.
pub open spec fn has_neutral_nonce(signature: Seq<u8>) -> bool {
    signature[0] == 1 && forall|i: int| 1 <= i < 32 ==> #[trigger] signature[i] == 0
}

/// The identifier of the node with a secret key.
///
/// Calls `iroh::SecretKey::from_bytes` and `public`, and prints the public key, which gives its 32
/// bytes in lower-case hexadecimal. `iroh::PublicKey::from_str` reads what was printed back.
#[verifier::external_body]
pub(crate) fn node_id_of(secret: &[u8; 32]) -> (r: String)
    ensures
        r@ == lower_hex(ed25519_public(secret@)),
        r@.len() == 64,
        node_key_of(r@) == Some(ed25519_public(secret@)),
{
    iroh::SecretKey::from_bytes(secret).public().to_string()
}

/// Signs a message.
///
/// Calls `iroh::SecretKey::from_bytes` and `sign`, which is deterministic. The signature is valid
/// under the public key of the secret key, save where its nonce point is the neutral element.
#[verifier::external_body]
pub(crate) fn sign(secret: &[u8; 32], message: &[u8]) -> (r: [u8; 64])
    ensures
        r@ == ed25519_signature(secret@, message@),
        !has_neutral_nonce(r@) ==> ed25519_valid(ed25519_public(secret@), message@, r@),
{
    iroh::SecretKey::from_bytes(secret).sign(message).to_bytes()
}

/// Checks whether a signature is valid.
///
/// Calls `iroh::PublicKey::from_bytes`, `iroh::Signature::from_bytes` and
/// `iroh::PublicKey::verify`, and prints the error. Bytes that are no public key have no valid
/// signatures. The result depends on the three arguments alone.
#[verifier::external_body]
pub(crate) fn verify(key: &[u8; 32], message: &[u8], signature: &[u8; 64]) -> (r: Result<(), String>)
    ensures
        match r {
            Ok(_) => ed25519_valid(key@, message@, signature@),
            Err(cause) => !ed25519_valid(key@, message@, signature@) && cause@ == ed25519_fault(
                key@,
                message@,
                signature@,
            ),
        },
{
    let k = iroh::PublicKey::from_bytes(key).map_err(|e| e.to_string())?;
    k.verify(message, &iroh::Signature::from_bytes(signature)).map_err(|e| e.to_string())
}

/// Reads a node's identifier.
///
/// Calls `iroh::PublicKey::from_str`, which takes hexadecimal or base 32 text of 32 bytes that are
/// the encoding of a point of the curve, and prints the error. The result depends on the text
/// alone.
#[verifier::external_body]
pub(crate) fn parse_node_id(text: &str) -> (r: Result<[u8; 32], String>)
    ensures
        match r {
            Ok(key) => node_key_of(text@) == Some(key@),
            Err(cause) => node_key_of(text@) is None && cause@ == node_key_fault(text@),
        },
{
    let key = text.parse::<iroh::PublicKey>().map_err(|e| e.to_string())?;
    Ok(*key.as_bytes())
}

/// A new secret key from a seed.
///
/// Calls `rand_chacha::ChaCha8Rng::from_seed` and `iroh::SecretKey::generate`. The key depends on
/// the seed alone.
#[verifier::external_body]
pub(crate) fn secret_key_from_seed(seed: [u8; 32]) -> (r: [u8; 32])
    ensures
        r@ == secret_key_of_seed(seed@),
{
    let mut rng = <rand_chacha::ChaCha8Rng as rand_chacha::rand_core::SeedableRng>::from_seed(seed);
    iroh::SecretKey::generate(&mut rng).to_bytes()
}

/// A seed from the machine's source of randomness, where it gives one.
///
/// Calls `getrandom::fill`, and prints the error. Nothing is claimed of the result.
#[verifier::external_body]
fn random_seed() -> (r: Result<[u8; 32], String>) {
    let mut seed = [0u8; 32];
    getrandom::fill(&mut seed).map_err(|e| e.to_string())?;
    Ok(seed)
}

/// Whether the machine's source of randomness gave this when it was asked.
pub closed spec fn is_drawn_seed(drawn: Result<[u8; 32], String>) -> bool {
    call_ensures(random_seed, (), drawn)
}

/// Where a node's secret key comes from.
#[derive(Debug)]
pub enum NodeKey {
    /// The key file held it.
    Loaded([u8; 32]),
    /// It is new, and the key file has to be written.
    Generated([u8; 32]),
}

/// Why a node has no secret key.
#[derive(Debug)]
pub enum KeyError {
    /// The key file does not hold 32 bytes.
    InvalidKeyFile,
    /// The machine gave no random seed. The cause is what it said.
    NoSeed { cause: String },
}

impl KeyError {
    /// The error in words.
    pub fn message(&self) -> (r: String)
        ensures
            r@ == (match *self {
                KeyError::InvalidKeyFile => "Invalid key file"@,
                KeyError::NoSeed { cause } => "Failed to get random seed: "@ + cause@,
            }),
    {
        match self {
            KeyError::InvalidKeyFile => "Invalid key file".to_owned(),
            KeyError::NoSeed { cause } => joined("Failed to get random seed: ", cause.as_str()),
        }
    }
}

fn thirty_two(bytes: &Vec<u8>) -> (r: [u8; 32])
    requires
        bytes@.len() == 32,
    ensures
        r@ == bytes@,
{
    let mut key: [u8; 32] = [0u8; 32];
    let mut i: usize = 0;
    while i < 32
        invariant
            i <= 32,
            bytes@.len() == 32,
            forall|j: int| 0 <= j < i ==> key@[j] == bytes@[j],
        decreases 32 - i,
    {
        key[i] = bytes[i];
        i += 1;
    }
    assert(key@ =~= bytes@);
    key
}

/// The secret key that a key file holds: exactly 32 bytes.
pub fn key_from_file(contents: &Vec<u8>) -> (r: Result<[u8; 32], KeyError>)
    ensures
        match r {
            Ok(key) => contents@.len() == 32 && key@ == contents@,
            Err(e) => contents@.len() != 32 && e is InvalidKeyFile,
        },
{
    if contents.len() == 32 {
        Ok(thirty_two(contents))
    } else {
        Err(KeyError::InvalidKeyFile)
    }
}

/// A new secret key, given what the machine's source of randomness gave.
pub fn key_from_seed(drawn: Result<[u8; 32], String>) -> (r: Result<[u8; 32], KeyError>)
    ensures
        match drawn {
            Ok(seed) => r is Ok && r->Ok_0@ == secret_key_of_seed(seed@),
            Err(cause) => r == Err::<[u8; 32], KeyError>(KeyError::NoSeed { cause }),
        },
{
    match drawn {
        Ok(seed) => Ok(secret_key_from_seed(seed)),
        Err(cause) => Err(KeyError::NoSeed { cause }),
    }
}

/// The secret key of a node: the one that its key file holds, given what the file holds, or else a
/// new one, from a seed that is drawn at random.
pub fn node_key(key_file: Option<Vec<u8>>) -> (r: Result<NodeKey, KeyError>)
    ensures
        match key_file {
            Some(contents) => match r {
                Ok(NodeKey::Loaded(key)) => contents@.len() == 32 && key@ == contents@,
                Ok(NodeKey::Generated(_)) => false,
                Err(e) => contents@.len() != 32 && e is InvalidKeyFile,
            },
            None => exists|drawn: Result<[u8; 32], String>|
                {
                    &&& #[trigger] is_drawn_seed(drawn)
                    &&& match drawn {
                        Ok(seed) => r matches Ok(NodeKey::Generated(key)) && key@
                            == secret_key_of_seed(seed@),
                        Err(cause) => r == Err::<NodeKey, KeyError>(KeyError::NoSeed { cause }),
                    }
                },
        },
{
    match key_file {
        Some(contents) => match key_from_file(&contents) {
            Ok(key) => Ok(NodeKey::Loaded(key)),
            Err(e) => Err(e),
        },
        None => {
            let drawn: Result<[u8; 32], String> = random_seed();
            assert(is_drawn_seed(drawn));
            match key_from_seed(drawn) {
                Ok(key) => Ok(NodeKey::Generated(key)),
                Err(e) => Err(e),
            }
        },
    }
}

} // verus!
