//! What follows from how a node is configured.

use vstd::prelude::*;

use crate::config::{
    is_default, key_bytes, parsed_keys, relay_model, services, valid_keys, DiscoveryService,
    RelayModel, XaeroFluxConfig,
};
use crate::node::advertised;
use crate::settings::value_or;

verus! {

/// A node of which nothing is said is on the mesh `xaeroflux`, keeps its database beside it, uses
/// the usual relays, looks for peers everywhere and starts from nobody.
pub proof fn law_defaults(c: XaeroFluxConfig)
    requires
        is_default(c),
    ensures
        c.discovery_key@ == "xaeroflux"@,
        c.db_path@ == "xaeroflux.db"@,
        relay_model(
            c.relay_disabled,
            match c.relay_url {
                Some(url) => Some(url@),
                None => None,
            },
        ) is Default,
        services(c.use_n0_discovery, c.use_mdns, c.static_provider is Some) == seq![
            DiscoveryService::PkarrPublisher,
            DiscoveryService::Dns,
            DiscoveryService::Mdns,
        ],
        c.bootstrap_peers@.len() == 0,
{
    assert(services(c.use_n0_discovery, c.use_mdns, c.static_provider is Some) =~= seq![
        DiscoveryService::PkarrPublisher,
        DiscoveryService::Dns,
        DiscoveryService::Mdns,
    ]);
}

/// Where relays are disabled there is none, whatever was set. Else the one that was set is used, and
/// the usual ones are only used where none was set.
pub proof fn law_relays(url: Seq<char>, disabled: bool, custom: Option<Seq<char>>)
    ensures
        relay_model(disabled, custom) is Disabled <==> disabled,
        relay_model(disabled, custom) == RelayModel::Custom(url) <==> !disabled && custom == Some(
            url,
        ),
        relay_model(disabled, custom) is Default <==> !disabled && custom is None,
{
}

/// Each service is used if and only if it was asked for, and none of them twice; n0's server is
/// published to before it is asked, the local network comes after it, and what was given by hand
/// comes last.
pub proof fn law_services(n0: bool, mdns: bool, by_hand: bool)
    ensures
        ({
            let s = services(n0, mdns, by_hand);
            &&& s.contains(DiscoveryService::PkarrPublisher) <==> n0
            &&& s.contains(DiscoveryService::Dns) <==> n0
            &&& s.contains(DiscoveryService::Mdns) <==> mdns
            &&& s.contains(DiscoveryService::Static) <==> by_hand
            &&& s.no_duplicates()
            &&& n0 ==> s[0] == DiscoveryService::PkarrPublisher && s[1] == DiscoveryService::Dns
            &&& by_hand ==> s.last() == DiscoveryService::Static
        }),
{
    let s = services(n0, mdns, by_hand);
    if n0 {
        assert(s[0] == DiscoveryService::PkarrPublisher);
        assert(s[1] == DiscoveryService::Dns);
    }
    if mdns {
        assert(s[if n0 { 2int } else { 0int }] == DiscoveryService::Mdns);
    }
    if by_hand {
        assert(s[s.len() - 1] == DiscoveryService::Static);
    }
}

/// The identifiers that could be read are kept in their order, and the others are left out.
pub proof fn law_valid_keys_are_kept(parsed: Seq<Option<Seq<u8>>>)
    ensures
        valid_keys(parsed) == parsed.filter(|p: Option<Seq<u8>>| p is Some).map_values(
            |p: Option<Seq<u8>>| p->0,
        ),
    decreases parsed.len(),
{
    reveal(Seq::filter);
    let is_key = |p: Option<Seq<u8>>| p is Some;
    let key = |p: Option<Seq<u8>>| p->0;
    if parsed.len() == 0 {
        assert(valid_keys(parsed) =~= parsed.filter(is_key).map_values(key));
    } else {
        law_valid_keys_are_kept(parsed.drop_last());
        assert(valid_keys(parsed) =~= parsed.filter(is_key).map_values(key));
    }
}

/// What was read and what was kept is taken in one by one.
pub proof fn law_read_keys_are_taken_one_by_one(
    parsed: Seq<Option<[u8; 32]>>,
    keys: Seq<[u8; 32]>,
)
    ensures
        parsed_keys(parsed).len() == parsed.len(),
        forall|i: int|
            0 <= i < parsed.len() && parsed[i] is Some ==> #[trigger] parsed_keys(parsed)[i] == Some(
                parsed[i]->0@,
            ),
        forall|i: int|
            0 <= i < parsed.len() && parsed[i] is None ==> #[trigger] parsed_keys(
                parsed,
            )[i] is None,
        key_bytes(keys).len() == keys.len(),
        forall|i: int| 0 <= i < keys.len() ==> #[trigger] key_bytes(keys)[i] == keys[i]@,
{
}

/// A value that was set is taken, and the other one only where none was set.
pub proof fn law_set_values_are_taken(value: Option<String>, default: Seq<char>)
    ensures
        value is Some ==> value_or(value, default) == value->0@,
        value is None ==> value_or(value, default) == default,
{
}

/// A node says its own name, its mesh and its deployment, all the addresses that are observed, and
/// the time. It says the relay that is set, or else the first one that is observed, or else none.
pub proof fn law_nodes_say_how_to_reach_them(
    discovery_key: Seq<char>,
    node_id: Seq<char>,
    env: Seq<char>,
    relay_url: Option<Seq<char>>,
    ts: u64,
    direct: Seq<Seq<char>>,
    observed_relays: Seq<Seq<char>>,
)
    ensures
        ({
            let c = advertised(
                discovery_key,
                node_id,
                env,
                relay_url,
                ts,
                direct,
                observed_relays,
            );
            &&& c.env == env && c.discovery_key == discovery_key && c.node_id == node_id
            &&& c.addr == direct && c.ts == ts
            &&& relay_url is Some ==> c.relay_url == relay_url
            &&& relay_url is None && observed_relays.len() > 0 ==> c.relay_url == Some(
                observed_relays.first(),
            )
            &&& relay_url is None && observed_relays.len() == 0 ==> c.relay_url is None
        }),
{
}

} // verus!
