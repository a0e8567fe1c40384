//! Reading signed rendezvous configs from the text that they are published as.

use vstd::prelude::*;

use crate::json::{
    by_section, distinct_keys, entries_of, entry_of, find_section, is_plain_key, is_tame,
    is_text_of, lemma_value_of, object_at, object_sections, optional, part_of, parts, pointer,
    read_sections, text_list, Json, JsonElement, JsonEntry, JsonPart, JsonSection, READ_DEPTH,
};
use crate::rendezvous::{
    bootstrap_value, config_value, published, signed_value, BootstrapInfo, ConfigModel,
    RendezvousConfig, SignedRendezvousConfig,
};
use crate::text::{opt_text, texts};

verus! {

/// The members of an object that was read.
pub type Entries = Map<Seq<char>, JsonEntry>;

/// The text of a member.
pub open spec fn entry_text(entries: Entries, key: Seq<char>) -> Option<Seq<char>> {
    if entries.contains_key(key) {
        entries[key].field.text
    } else {
        None
    }
}

/// A member that may be missing or `null`, or else is a text. `None` where it is anything else.
pub open spec fn entry_optional_text(entries: Entries, key: Seq<char>) -> Option<Option<Seq<char>>> {
    if !entries.contains_key(key) || entries[key].field.null {
        Some(None)
    } else {
        match entries[key].field.text {
            Some(t) => Some(Some(t)),
            None => None,
        }
    }
}

/// The unsigned number of a member.
pub open spec fn entry_uint(entries: Entries, key: Seq<char>) -> Option<u64> {
    if entries.contains_key(key) {
        entries[key].field.uint
    } else {
        None
    }
}

/// The elements of an array, where all of them are texts.
pub open spec fn all_texts(elements: Seq<JsonPart>) -> Option<Seq<Seq<char>>>
    decreases elements.len(),
{
    if elements.len() == 0 {
        Some(Seq::empty())
    } else {
        match (all_texts(elements.drop_last()), elements.last().text) {
            (Some(earlier), Some(t)) => Some(earlier.push(t)),
            _ => None,
        }
    }
}

/// The texts of a member, where it is an array of texts.
pub open spec fn entry_texts(entries: Entries, key: Seq<char>) -> Option<Seq<Seq<char>>> {
    if entries.contains_key(key) {
        match entries[key].elements {
            Some(elements) => all_texts(elements),
            None => None,
        }
    } else {
        None
    }
}

/// What a signed config says.
#[verifier::ext_equal]
pub struct SignedModel {
    pub config: ConfigModel,
    pub signer: Seq<char>,
    pub signature: Seq<char>,
}

/// What a signed config says.
pub open spec fn signed_model(s: SignedRendezvousConfig) -> SignedModel {
    SignedModel { config: s.config@, signer: s.signer@, signature: s.signature@ }
}

/// The config that the members of its object and of the object of its node describe.
pub open spec fn config_in(config: Entries, bootstrap: Entries) -> Option<ConfigModel> {
    match (
        entry_text(config, "env"@),
        entry_text(config, "discovery_key"@),
        entry_text(bootstrap, "node_id"@),
        entry_texts(bootstrap, "addr"@),
        entry_optional_text(config, "relay_url"@),
        entry_uint(config, "ts"@),
    ) {
        (
            Some(env),
            Some(discovery_key),
            Some(node_id),
            Some(addr),
            Some(relay_url),
            Some(ts),
        ) => Some(ConfigModel { env, discovery_key, node_id, addr, relay_url, ts }),
        _ => None,
    }
}

/// The signed config that the members of its object, of the config in it and of the node in that
/// describe.
pub open spec fn signed_in(top: Entries, config: Entries, bootstrap: Entries) -> Option<SignedModel> {
    match (
        config_in(config, bootstrap),
        entry_text(top, "signer"@),
        entry_text(top, "signature"@),
    ) {
        (Some(config), Some(signer), Some(signature)) => Some(
            SignedModel { config, signer, signature },
        ),
        _ => None,
    }
}

/// The signed config that a text describes.
pub open spec fn signed_of(raw: Seq<u8>) -> Option<SignedModel> {
    match (
        object_sections(raw, ""@),
        object_sections(raw, "/config"@),
        object_sections(raw, "/config/bootstrap"@),
    ) {
        (Some(top), Some(config), Some(bootstrap)) => signed_in(top, config, bootstrap),
        _ => None,
    }
}

// ---------------------------------------------------------------------------------------------
// The code
// ---------------------------------------------------------------------------------------------

fn text_at(sections: &Vec<JsonSection>, key: &str) -> (r: Option<String>)
    ensures
        opt_text(r) == entry_text(by_section(sections@), key@),
{
    match find_section(sections, key) {
        Some(s) => s.member.text.clone(),
        None => None,
    }
}

fn optional_text_at(sections: &Vec<JsonSection>, key: &str) -> (r: Option<Option<String>>)
    ensures
        match r {
            Some(o) => entry_optional_text(by_section(sections@), key@) == Some(opt_text(o)),
            None => entry_optional_text(by_section(sections@), key@) is None,
        },
{
    match find_section(sections, key) {
        None => Some(None),
        Some(s) => {
            if s.member.null {
                Some(None)
            } else {
                match &s.member.text {
                    Some(t) => Some(Some(t.clone())),
                    None => None,
                }
            }
        },
    }
}

fn uint_at(sections: &Vec<JsonSection>, key: &str) -> (r: Option<u64>)
    ensures
        r == entry_uint(by_section(sections@), key@),
{
    match find_section(sections, key) {
        Some(s) => s.member.uint,
        None => None,
    }
}

proof fn lemma_failure_stays(elements: Seq<JsonPart>, i: int)
    requires
        0 <= i <= elements.len(),
        all_texts(elements.take(i)) is None,
    ensures
        all_texts(elements) is None,
    decreases elements.len() - i,
{
    if i == elements.len() {
        assert(elements.take(i) =~= elements);
    } else {
        assert(elements.take(i + 1).drop_last() =~= elements.take(i));
        lemma_failure_stays(elements, i + 1);
    }
}

fn element_texts(elements: &Vec<JsonElement>) -> (r: Option<Vec<String>>)
    ensures
        match r {
            Some(list) => all_texts(parts(elements@)) == Some(texts(list@)),
            None => all_texts(parts(elements@)) is None,
        },
{
    let ghost all = parts(elements@);
    let mut r: Vec<String> = Vec::new();
    let mut i: usize = 0;
    assert(all.take(0) =~= Seq::<JsonPart>::empty());
    assert(texts(r@) =~= Seq::<Seq<char>>::empty());
    while i < elements.len()
        invariant
            i <= elements@.len(),
            all == parts(elements@),
            all_texts(all.take(i as int)) == Some(texts(r@)),
        decreases elements@.len() - i,
    {
        assert(all.take(i + 1).drop_last() =~= all.take(i as int));
        match &elements[i].text {
            Some(t) => {
                let ghost before = r@;
                r.push(t.clone());
                assert(texts(r@) =~= texts(before).push(t@));
            },
            None => {
                proof {
                    lemma_failure_stays(all, i + 1);
                }
                return None;
            },
        }
        i += 1;
    }
    assert(all.take(all.len() as int) =~= all);
    Some(r)
}

fn texts_at(sections: &Vec<JsonSection>, key: &str) -> (r: Option<Vec<String>>)
    ensures
        match r {
            Some(list) => entry_texts(by_section(sections@), key@) == Some(texts(list@)),
            None => entry_texts(by_section(sections@), key@) is None,
        },
{
    match find_section(sections, key) {
        Some(s) => match &s.elements {
            Some(elements) => element_texts(elements),
            None => None,
        },
        None => None,
    }
}

fn read_config(config: &Vec<JsonSection>, bootstrap: &Vec<JsonSection>) -> (r: Option<
    RendezvousConfig,
>)
    ensures
        match r {
            Some(c) => config_in(by_section(config@), by_section(bootstrap@)) == Some(c@),
            None => config_in(by_section(config@), by_section(bootstrap@)) is None,
        },
{
    match (
        text_at(config, "env"),
        text_at(config, "discovery_key"),
        text_at(bootstrap, "node_id"),
        texts_at(bootstrap, "addr"),
        optional_text_at(config, "relay_url"),
        uint_at(config, "ts"),
    ) {
        (
            Some(env),
            Some(discovery_key),
            Some(node_id),
            Some(addr),
            Some(relay_url),
            Some(ts),
        ) => Some(
            RendezvousConfig {
                env,
                discovery_key,
                bootstrap: BootstrapInfo { node_id, addr },
                relay_url,
                ts,
            },
        ),
        _ => None,
    }
}

/// Reads a signed config from the members of its object, of the config in it and of the node in
/// that.
pub fn read_signed_sections(
    top: &Vec<JsonSection>,
    config: &Vec<JsonSection>,
    bootstrap: &Vec<JsonSection>,
) -> (r: Option<SignedRendezvousConfig>)
    ensures
        ({
            let described = signed_in(
                by_section(top@),
                by_section(config@),
                by_section(bootstrap@),
            );
            match r {
                Some(s) => described == Some(signed_model(s)),
                None => described is None,
            }
        }),
{
    match (read_config(config, bootstrap), text_at(top, "signer"), text_at(top, "signature")) {
        (Some(config), Some(signer), Some(signature)) => Some(
            SignedRendezvousConfig { config, signer, signature },
        ),
        _ => None,
    }
}

/// Reads a signed config from its text. What was published of a signed config reads as that config,
/// its signer and its signature. Of a member that stands twice in an object the last one counts.
pub fn read_signed(raw: &[u8]) -> (r: Option<SignedRendezvousConfig>)
    ensures
        match r {
            Some(s) => signed_of(raw@) == Some(signed_model(s)),
            None => signed_of(raw@) is None,
        },
        forall|s: SignedRendezvousConfig|
            raw@ == #[trigger] published(s) ==> r is Some && signed_model(r->0) == signed_model(s),
{
    let top: Option<Vec<JsonSection>> = read_sections(raw, "");
    let config: Option<Vec<JsonSection>> = read_sections(raw, "/config");
    let bootstrap: Option<Vec<JsonSection>> = read_sections(raw, "/config/bootstrap");
    proof {
        assert forall|s: SignedRendezvousConfig| raw@ == #[trigger] published(s) implies signed_of(
            raw@,
        ) == Some(signed_model(s)) by {
            let v = signed_value(s);
            lemma_signed_is_tame(s);
            lemma_signed_paths(s);
            law_signed_config_reads_back(s);
            assert(is_text_of(raw@, v));
            assert(object_at(v, Seq::empty()) is Some);
            assert(object_at(v, seq!["config"@]) is Some);
            assert(object_at(v, seq!["config"@, "bootstrap"@]) is Some);
        }
    }
    match (top, config, bootstrap) {
        (Some(top), Some(config), Some(bootstrap)) => {
            read_signed_sections(&top, &config, &bootstrap)
        },
        _ => None,
    }
}

// ---------------------------------------------------------------------------------------------
// What is published reads back
// ---------------------------------------------------------------------------------------------

proof fn lemma_keys(c: ConfigModel, s: SignedRendezvousConfig)
    ensures
        distinct_keys(bootstrap_value(c)->Object_0),
        distinct_keys(config_value(c)->Object_0),
        distinct_keys(signed_value(s)->Object_0),
{
    reveal_strlit("node_id");
    reveal_strlit("addr");
    assert("node_id"@.len() != "addr"@.len());
    reveal_strlit("env");
    reveal_strlit("discovery_key");
    reveal_strlit("bootstrap");
    reveal_strlit("relay_url");
    reveal_strlit("ts");
    assert("env"@.len() != "discovery_key"@.len());
    assert("env"@.len() != "bootstrap"@.len());
    assert("env"@.len() != "relay_url"@.len());
    assert("env"@.len() != "ts"@.len());
    assert("discovery_key"@.len() != "bootstrap"@.len());
    assert("discovery_key"@.len() != "relay_url"@.len());
    assert("discovery_key"@.len() != "ts"@.len());
    assert("bootstrap"@[0] != "relay_url"@[0]);
    assert("bootstrap"@.len() != "ts"@.len());
    assert("relay_url"@.len() != "ts"@.len());
    reveal_strlit("config");
    reveal_strlit("signer");
    reveal_strlit("signature");
    assert("config"@[0] != "signer"@[0]);
    assert("config"@.len() != "signature"@.len());
    assert("signer"@.len() != "signature"@.len());
}

proof fn lemma_signed_is_tame(s: SignedRendezvousConfig)
    ensures
        is_tame(signed_value(s), READ_DEPTH as nat),
{
    let c = s.config@;
    lemma_keys(c, s);
    reveal_with_fuel(is_tame, 2);
    let addr = text_list(c.addr)->List_0;
    assert forall|i: int| 0 <= i < addr.len() implies is_tame(#[trigger] addr[i], 96) by {
        assert(addr[i] is Text);
    }
    assert(is_tame(text_list(c.addr), 97));
    let b = bootstrap_value(c)->Object_0;
    assert forall|i: int| 0 <= i < b.len() implies is_tame((#[trigger] b[i]).1, 97) by {
        assert(i == 0 || i == 1);
    }
    assert(is_tame(bootstrap_value(c), 98));
    let m = config_value(c)->Object_0;
    assert forall|i: int| 0 <= i < m.len() implies is_tame((#[trigger] m[i]).1, 98) by {
        assert(i == 0 || i == 1 || i == 2 || i == 3 || i == 4);
    }
    assert(is_tame(config_value(c), 99));
    let t = signed_value(s)->Object_0;
    assert forall|i: int| 0 <= i < t.len() implies is_tame((#[trigger] t[i]).1, 99) by {
        assert(i == 0 || i == 1 || i == 2);
    }
}

proof fn lemma_signed_paths(s: SignedRendezvousConfig)
    ensures
        "/config"@ == pointer(seq!["config"@]),
        "/config/bootstrap"@ == pointer(seq!["config"@, "bootstrap"@]),
        is_plain_key("config"@),
        is_plain_key("bootstrap"@),
        object_at(signed_value(s), Seq::empty()) == Some(signed_value(s)->Object_0),
        object_at(signed_value(s), seq!["config"@]) == Some(config_value(s.config@)->Object_0),
        object_at(signed_value(s), seq!["config"@, "bootstrap"@]) == Some(
            bootstrap_value(s.config@)->Object_0,
        ),
{
    reveal_strlit("");
    reveal_strlit("/");
    reveal_strlit("config");
    reveal_strlit("bootstrap");
    reveal_strlit("/config");
    reveal_strlit("/config/bootstrap");
    let one = seq!["config"@];
    let two = seq!["config"@, "bootstrap"@];
    let rest = seq!["bootstrap"@];
    let none = Seq::<Seq<char>>::empty();
    assert(one.drop_first() =~= none);
    assert(two.drop_first() =~= rest);
    assert(rest.drop_first() =~= none);
    assert(pointer(none) =~= Seq::<char>::empty());
    assert(pointer(one) =~= "/config"@);
    assert(pointer(rest) =~= "/"@ + "bootstrap"@);
    assert(pointer(two) =~= "/config/bootstrap"@);
    let c = s.config@;
    lemma_keys(c, s);
    lemma_value_of(signed_value(s)->Object_0, 0);
    lemma_value_of(config_value(c)->Object_0, 2);
    assert(object_at(bootstrap_value(c), none) == Some(bootstrap_value(c)->Object_0));
    assert(object_at(config_value(c), rest) == object_at(bootstrap_value(c), none));
    assert(object_at(config_value(c), none) == Some(config_value(c)->Object_0));
}

proof fn lemma_texts_read_back(list: Seq<Seq<char>>)
    ensures
        all_texts(entry_of(text_list(list)).elements->0) == Some(list),
    decreases list.len(),
{
    let elements = entry_of(text_list(list)).elements->0;
    if list.len() == 0 {
        assert(elements =~= Seq::<JsonPart>::empty());
        assert(list =~= Seq::<Seq<char>>::empty());
    } else {
        let front = list.drop_last();
        lemma_texts_read_back(front);
        assert(entry_of(text_list(front)).elements->0 =~= elements.drop_last());
        assert(elements.last() == part_of(Json::Text(list.last())));
        assert(front.push(list.last()) =~= list);
    }
}

/// The value of a signed config reads as that config, its signer and its signature.
pub proof fn law_signed_config_reads_back(s: SignedRendezvousConfig)
    ensures
        signed_in(
            entries_of(signed_value(s)->Object_0),
            entries_of(config_value(s.config@)->Object_0),
            entries_of(bootstrap_value(s.config@)->Object_0),
        ) == Some(signed_model(s)),
{
    let c = s.config@;
    let t = signed_value(s)->Object_0;
    let m = config_value(c)->Object_0;
    let b = bootstrap_value(c)->Object_0;
    lemma_keys(c, s);
    lemma_value_of(t, 1);
    lemma_value_of(t, 2);
    lemma_value_of(m, 0);
    lemma_value_of(m, 1);
    lemma_value_of(m, 3);
    lemma_value_of(m, 4);
    lemma_value_of(b, 0);
    lemma_value_of(b, 1);
    lemma_texts_read_back(c.addr);
    let top = entries_of(t);
    let config = entries_of(m);
    let bootstrap = entries_of(b);
    assert(entry_text(top, "signer"@) == Some(s.signer@));
    assert(entry_text(top, "signature"@) == Some(s.signature@));
    assert(entry_text(config, "env"@) == Some(c.env));
    assert(entry_text(config, "discovery_key"@) == Some(c.discovery_key));
    assert(config.contains_key("relay_url"@) && config["relay_url"@] == entry_of(
        optional(c.relay_url),
    ));
    assert(entry_optional_text(config, "relay_url"@) == Some(c.relay_url));
    assert(entry_uint(config, "ts"@) == Some(c.ts));
    assert(entry_text(bootstrap, "node_id"@) == Some(c.node_id));
    assert(bootstrap.contains_key("addr"@) && bootstrap["addr"@] == entry_of(text_list(c.addr)));
}

} // verus!
