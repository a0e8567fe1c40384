//! When a signed config is accepted, and what is read from its text.

use vstd::prelude::*;
use vstd::utf8::encode_utf8;

use crate::digest::lower_hex;
use crate::hex_text::{hex_bytes, hex_fault, is_hex, law_hex_reads_back};
use crate::identity::{ed25519_fault, ed25519_valid, node_key_fault, node_key_of};
use crate::json::{object_sections, written, JsonPart};
use crate::json_pretty::pretty;
use crate::rendezvous::{
    canonical, config_value, error_text, published, signature_in, signed_value, verdict, ConfigModel,
    SignedRendezvousConfig, VerifyErrorModel,
};
use crate::rendezvous_read::{
    all_texts, config_in, signed_in, signed_model, signed_of, Entries, SignedModel,
};

verus! {

// ---------------------------------------------------------------------------------------------
// Judging
// ---------------------------------------------------------------------------------------------

/// Whether a signed config carries a signature of all that it says, by the key that its signer's
/// text gives.
pub open spec fn is_genuine(s: SignedRendezvousConfig) -> bool {
    &&& node_key_of(s.signer@) is Some
    &&& is_hex(s.signature@) && s.signature@.len() == 128
    &&& ed25519_valid(
        node_key_of(s.signer@)->0,
        encode_utf8(written(config_value(s.config@))),
        hex_bytes(s.signature@),
    )
}

/// A signed config is accepted if and only if it is genuine. If it is not, what is wrong with the
/// signer is told first, next what is wrong with the digits of the signature, next that it does not
/// have the right length, and last that it does not fit.
pub proof fn law_only_genuine_configs_are_accepted(s: SignedRendezvousConfig)
    ensures
        verdict(s) is Ok <==> is_genuine(s),
        node_key_of(s.signer@) is None ==> verdict(s) == Err::<(), VerifyErrorModel>(
            VerifyErrorModel::InvalidSigner { cause: node_key_fault(s.signer@) },
        ),
        node_key_of(s.signer@) is Some && !is_hex(s.signature@) ==> verdict(s) == Err::<
            (),
            VerifyErrorModel,
        >(VerifyErrorModel::BadHex { cause: hex_fault(s.signature@) }),
        node_key_of(s.signer@) is Some && is_hex(s.signature@) && s.signature@.len() != 128
            ==> verdict(s) == Err::<(), VerifyErrorModel>(VerifyErrorModel::WrongLength),
        node_key_of(s.signer@) is Some && is_hex(s.signature@) && s.signature@.len() == 128
            && !is_genuine(s) ==> verdict(s) == Err::<(), VerifyErrorModel>(
            VerifyErrorModel::Mismatch {
                cause: ed25519_fault(
                    node_key_of(s.signer@)->0,
                    encode_utf8(written(config_value(s.config@))),
                    hex_bytes(s.signature@),
                ),
            },
        ),
{
}

/// The text of a signature gives the bytes of which it is the printed form.
pub proof fn law_signatures_read_back(signature: Seq<u8>)
    ensures
        signature.len() == 64 ==> signature_in(lower_hex(signature)) == Ok::<
            Seq<u8>,
            VerifyErrorModel,
        >(signature),
        signature.len() != 64 ==> signature_in(lower_hex(signature)) == Err::<
            Seq<u8>,
            VerifyErrorModel,
        >(VerifyErrorModel::WrongLength),
{
    law_hex_reads_back(signature);
}

/// What is signed is the written form of the config, and what is published is the signed config laid
/// out for people.
pub proof fn law_what_is_signed_and_published(c: ConfigModel, s: SignedRendezvousConfig)
    ensures
        canonical(c) == encode_utf8(written(config_value(c))),
        published(s) == encode_utf8(pretty(signed_value(s), 0)),
{
}

/// What is said names what is wrong, and ends with the cause where it is not the digits of the
/// signature that are wrong.
pub proof fn law_refusals_in_words(cause: Seq<char>)
    ensures
        error_text(VerifyErrorModel::InvalidSigner { cause }) == "invalid signer public key: "@
            + cause,
        error_text(VerifyErrorModel::BadHex { cause }) == "decode signature hex"@,
        error_text(VerifyErrorModel::WrongLength) == "signature must be 64 bytes"@,
        error_text(VerifyErrorModel::Mismatch { cause })
            == "rendezvous signature verification failed: "@ + cause,
{
}

// ---------------------------------------------------------------------------------------------
// Reading
// ---------------------------------------------------------------------------------------------

/// Whether a member is there and is a text.
pub open spec fn tells(e: Entries, key: Seq<char>, text: Seq<char>) -> bool {
    e.contains_key(key) && e[key].field.text == Some(text)
}

/// Whether a member is a text, or is missing or `null` where no text is meant.
pub open spec fn may_tell(e: Entries, key: Seq<char>, text: Option<Seq<char>>) -> bool {
    if !e.contains_key(key) || e[key].field.null {
        text is None
    } else {
        text is Some && e[key].field.text == text
    }
}

/// Whether elements are texts, one by one.
pub open spec fn are_texts(elements: Seq<JsonPart>, list: Seq<Seq<char>>) -> bool {
    &&& elements.len() == list.len()
    &&& forall|i: int| 0 <= i < list.len() ==> (#[trigger] elements[i]).text == Some(list[i])
}

/// Whether a member is there and is a list of texts.
pub open spec fn tells_list(e: Entries, key: Seq<char>, list: Seq<Seq<char>>) -> bool {
    e.contains_key(key) && e[key].elements is Some && are_texts(e[key].elements->0, list)
}

/// A list of texts is read where every element is a text, and then gives all of them in their order.
pub proof fn law_lists_of_texts(elements: Seq<JsonPart>, list: Seq<Seq<char>>)
    ensures
        all_texts(elements) == Some(list) <==> are_texts(elements, list),
    decreases elements.len(),
{
    if elements.len() == 0 {
        if are_texts(elements, list) {
            assert(list =~= Seq::<Seq<char>>::empty());
        }
    } else {
        let front = elements.drop_last();
        let n = elements.len() - 1;
        if list.len() > 0 {
            law_lists_of_texts(front, list.drop_last());
        }
        if are_texts(elements, list) {
            assert(elements[n].text == Some(list[n]));
            assert forall|i: int| 0 <= i < n implies (#[trigger] front[i]).text == Some(
                list.drop_last()[i],
            ) by {
                assert(elements[i].text == Some(list[i]));
            }
            assert(are_texts(front, list.drop_last()));
            assert(list.drop_last().push(list[n]) =~= list);
        }
        if all_texts(elements) == Some(list) {
            let earlier = all_texts(front)->0;
            assert(list.drop_last() =~= earlier);
            assert(are_texts(front, list.drop_last()));
            assert forall|i: int| 0 <= i < list.len() implies (#[trigger] elements[i]).text == Some(
                list[i],
            ) by {
                if i < n {
                    assert(front[i].text == Some(list.drop_last()[i]));
                    assert(front[i] == elements[i]);
                }
            }
        }
    }
}

/// A config is read if and only if its members tell all of it; a missing relay is no relay.
pub proof fn law_configs_are_read(config: Entries, bootstrap: Entries, c: ConfigModel)
    ensures
        config_in(config, bootstrap) == Some(c) <==> tells(config, "env"@, c.env) && tells(
            config,
            "discovery_key"@,
            c.discovery_key,
        ) && tells(bootstrap, "node_id"@, c.node_id) && tells_list(bootstrap, "addr"@, c.addr)
            && may_tell(config, "relay_url"@, c.relay_url) && config.contains_key("ts"@)
            && config["ts"@].field.uint == Some(c.ts),
{
    if bootstrap.contains_key("addr"@) && bootstrap["addr"@].elements is Some {
        law_lists_of_texts(bootstrap["addr"@].elements->0, c.addr);
    }
}

/// A signed config is read if and only if its config is, and its members tell its signer and its
/// signature.
pub proof fn law_signed_configs_are_read(
    top: Entries,
    config: Entries,
    bootstrap: Entries,
    s: SignedModel,
)
    ensures
        signed_in(top, config, bootstrap) == Some(s) <==> config_in(config, bootstrap) == Some(
            s.config,
        ) && tells(top, "signer"@, s.signer) && tells(top, "signature"@, s.signature),
{
}

/// A signed config is read from a text that holds an object with the object of the config in it, and
/// in that the object of the node, and from no other text.
pub proof fn law_signed_configs_are_objects(raw: Seq<u8>)
    ensures
        object_sections(raw, ""@) is None || object_sections(raw, "/config"@) is None
            || object_sections(raw, "/config/bootstrap"@) is None ==> signed_of(raw) is None,
        object_sections(raw, ""@) is Some && object_sections(raw, "/config"@) is Some
            && object_sections(raw, "/config/bootstrap"@) is Some ==> signed_of(raw) == signed_in(
            object_sections(raw, ""@)->0,
            object_sections(raw, "/config"@)->0,
            object_sections(raw, "/config/bootstrap"@)->0,
        ),
{
}

/// What a signed config says is its config, its signer and its signature.
pub proof fn law_what_signed_configs_say(s: SignedRendezvousConfig)
    ensures
        signed_model(s).config.env == s.config.env@,
        signed_model(s).config.discovery_key == s.config.discovery_key@,
        signed_model(s).config.node_id == s.config.bootstrap.node_id@,
        signed_model(s).config.addr.len() == s.config.bootstrap.addr@.len(),
        forall|i: int|
            0 <= i < s.config.bootstrap.addr@.len() ==> #[trigger] signed_model(s).config.addr[i]
                == s.config.bootstrap.addr@[i]@,
        s.config.relay_url is Some ==> signed_model(s).config.relay_url == Some(
            s.config.relay_url->0@,
        ),
        s.config.relay_url is None ==> signed_model(s).config.relay_url is None,
        signed_model(s).config.ts == s.config.ts,
        signed_model(s).signer == s.signer@,
        signed_model(s).signature == s.signature@,
{
}

} // verus!
