//! How a node is configured, and what follows from it: its relay, its discovery services, and the
//! peers that it starts from.

use vstd::prelude::*;

use crate::identity::{node_key_of, parse_node_id};
use crate::text::texts;

verus! {

/// `iroh`'s table of addresses that are given by hand.
#[verifier::external_type_specification]
#[verifier::external_body]
pub struct ExStaticProvider(iroh::discovery::static_provider::StaticProvider);

/// The configuration of a node.
#[derive(Clone)]
pub struct XaeroFluxConfig {
    /// The key of the mesh: nodes with the same key find each other.
    pub discovery_key: String,
    /// Where the database lies.
    pub db_path: String,
    /// The relay, where not the default ones are used.
    pub relay_url: Option<String>,
    /// The identifiers of the peers to start from.
    pub bootstrap_peers: Vec<String>,
    /// Whether the node publishes and resolves addresses through n0's servers.
    pub use_n0_discovery: bool,
    /// Whether the node looks for peers on the local network.
    pub use_mdns: bool,
    /// Whether the node does without any relay.
    pub relay_disabled: bool,
    /// Addresses of peers that are given by hand.
    pub static_provider: Option<iroh::discovery::static_provider::StaticProvider>,
}

impl Default for XaeroFluxConfig {
    fn default() -> (r: Self)
        ensures
            r.discovery_key@ == "xaeroflux"@,
            r.db_path@ == "xaeroflux.db"@,
            r.relay_url is None,
            r.bootstrap_peers@.len() == 0,
            r.use_n0_discovery,
            r.use_mdns,
            !r.relay_disabled,
            r.static_provider is None,
    {
        XaeroFluxConfig {
            discovery_key: "xaeroflux".to_owned(),
            db_path: "xaeroflux.db".to_owned(),
            relay_url: None,
            bootstrap_peers: Vec::new(),
            use_n0_discovery: true,
            use_mdns: true,
            relay_disabled: false,
            static_provider: None,
        }
    }
}

/// Whether a configuration is the one that a node has where nothing was said about it.
pub open spec fn is_default(c: XaeroFluxConfig) -> bool {
    &&& c.discovery_key@ == "xaeroflux"@
    &&& c.db_path@ == "xaeroflux.db"@
    &&& c.relay_url is None
    &&& c.bootstrap_peers@.len() == 0
    &&& c.use_n0_discovery
    &&& c.use_mdns
    &&& !c.relay_disabled
    &&& c.static_provider is None
}

// ---------------------------------------------------------------------------------------------
// The builder
// ---------------------------------------------------------------------------------------------

/// Makes a configuration step by step. Its view is the configuration so far.
pub struct XaeroFluxBuilder {
    config: XaeroFluxConfig,
}

impl View for XaeroFluxBuilder {
    type V = XaeroFluxConfig;

    closed spec fn view(&self) -> XaeroFluxConfig {
        self.config
    }
}

impl XaeroFluxBuilder {
    /// Starts from the default configuration.
    pub fn new() -> (r: Self)
        ensures
            is_default(r@),
    {
        XaeroFluxBuilder { config: XaeroFluxConfig::default() }
    }

    /// Sets the discovery key.
    pub fn discovery_key(self, key: String) -> (r: Self)
        ensures
            r@ == (XaeroFluxConfig { discovery_key: key, ..self@ }),
    {
        let mut config = self.config;
        config.discovery_key = key;
        XaeroFluxBuilder { config }
    }

    /// Sets the place of the database.
    pub fn db_path(self, path: String) -> (r: Self)
        ensures
            r@ == (XaeroFluxConfig { db_path: path, ..self@ }),
    {
        let mut config = self.config;
        config.db_path = path;
        XaeroFluxBuilder { config }
    }

    /// Sets the relay.
    pub fn relay_url(self, url: String) -> (r: Self)
        ensures
            r@ == (XaeroFluxConfig { relay_url: Some(url), ..self@ }),
    {
        let mut config = self.config;
        config.relay_url = Some(url);
        XaeroFluxBuilder { config }
    }

    /// Sets the peers to start from.
    pub fn bootstrap_peers(self, peers: Vec<String>) -> (r: Self)
        ensures
            r@ == (XaeroFluxConfig { bootstrap_peers: peers, ..self@ }),
    {
        let mut config = self.config;
        config.bootstrap_peers = peers;
        XaeroFluxBuilder { config }
    }

    /// Adds a peer to start from.
    pub fn bootstrap_peer(self, peer: String) -> (r: Self)
        ensures
            r@.bootstrap_peers@ == self@.bootstrap_peers@.push(peer),
            r@ == (XaeroFluxConfig { bootstrap_peers: r@.bootstrap_peers, ..self@ }),
    {
        let mut config = self.config;
        config.bootstrap_peers.push(peer);
        XaeroFluxBuilder { config }
    }

    /// Does without n0's servers.
    pub fn no_n0_discovery(self) -> (r: Self)
        ensures
            r@ == (XaeroFluxConfig { use_n0_discovery: false, ..self@ }),
    {
        let mut config = self.config;
        config.use_n0_discovery = false;
        XaeroFluxBuilder { config }
    }

    /// Does without a search on the local network.
    pub fn no_mdns(self) -> (r: Self)
        ensures
            r@ == (XaeroFluxConfig { use_mdns: false, ..self@ }),
    {
        let mut config = self.config;
        config.use_mdns = false;
        XaeroFluxBuilder { config }
    }

    /// Does without any relay.
    pub fn disable_relay(self) -> (r: Self)
        ensures
            r@ == (XaeroFluxConfig { relay_disabled: true, ..self@ }),
    {
        let mut config = self.config;
        config.relay_disabled = true;
        XaeroFluxBuilder { config }
    }

    /// Gives addresses of peers by hand.
    pub fn static_provider(
        self,
        provider: iroh::discovery::static_provider::StaticProvider,
    ) -> (r: Self)
        ensures
            r@ == (XaeroFluxConfig { static_provider: Some(provider), ..self@ }),
    {
        let mut config = self.config;
        config.static_provider = Some(provider);
        XaeroFluxBuilder { config }
    }

    /// The configuration that was made.
    pub fn into_config(self) -> (r: XaeroFluxConfig)
        ensures
            r == self@,
    {
        self.config
    }
}

impl Default for XaeroFluxBuilder {
    fn default() -> (r: Self)
        ensures
            is_default(r@),
    {
        XaeroFluxBuilder::new()
    }
}

// ---------------------------------------------------------------------------------------------
// The relay
// ---------------------------------------------------------------------------------------------

/// The relay that a text names, in `iroh`'s form of its URL, where it names one.
pub uninterp spec fn relay_of(text: Seq<char>) -> Option<Seq<char>>;

/// Reads the URL of a relay.
///
/// Calls `iroh::RelayUrl::from_str` and prints the result. It depends on the text alone.
#[verifier::external_body]
pub(crate) fn parse_relay_url(text: &str) -> (r: Option<String>)
    ensures
        match r {
            Some(url) => relay_of(text@) == Some(url@),
            None => relay_of(text@) is None,
        },
{
    text.parse::<iroh::RelayUrl>().ok().map(|u| u.to_string())
}

/// Which relays a node uses.
#[derive(Debug)]
pub enum RelayChoice {
    Disabled,
    /// The one with this URL.
    Custom(String),
    /// `iroh`'s own.
    Default,
}

/// The model of a [`RelayChoice`].
pub enum RelayModel {
    Disabled,
    Custom(Seq<char>),
    Default,
}

impl View for RelayChoice {
    type V = RelayModel;

    open spec fn view(&self) -> RelayModel {
        match *self {
            RelayChoice::Disabled => RelayModel::Disabled,
            RelayChoice::Custom(url) => RelayModel::Custom(url@),
            RelayChoice::Default => RelayModel::Default,
        }
    }
}

/// The relay of a node: none where relays are disabled, else the one that was set, where its URL
/// is valid.
pub open spec fn relay_model(disabled: bool, custom: Option<Seq<char>>) -> RelayModel {
    if disabled {
        RelayModel::Disabled
    } else {
        match custom {
            Some(url) => RelayModel::Custom(url),
            None => RelayModel::Default,
        }
    }
}

/// The relay of a node, given the URL that was set where it is valid.
pub fn choose_relay(disabled: bool, custom: Option<String>) -> (r: RelayChoice)
    ensures
        r@ == relay_model(disabled, crate::text::opt_text(custom)),
{
    if disabled {
        RelayChoice::Disabled
    } else {
        match custom {
            Some(url) => RelayChoice::Custom(url),
            None => RelayChoice::Default,
        }
    }
}

impl XaeroFluxConfig {
    /// The relay of a node with this configuration. A URL that is not valid counts as none.
    pub fn relay(&self) -> (r: RelayChoice)
        ensures
            r@ == relay_model(
                self.relay_disabled,
                match self.relay_url {
                    Some(url) => relay_of(url@),
                    None => None,
                },
            ),
    {
        let custom: Option<String> = match &self.relay_url {
            Some(url) => parse_relay_url(url.as_str()),
            None => None,
        };
        choose_relay(self.relay_disabled, custom)
    }
}

// ---------------------------------------------------------------------------------------------
// Discovery
// ---------------------------------------------------------------------------------------------

/// A way of finding the addresses of peers.
#[derive(Debug, Clone, Copy, PartialEq, Eq, Structural)]
pub enum DiscoveryService {
    /// Publishes the node's address to n0's server.
    PkarrPublisher,
    /// Resolves addresses through n0's server.
    Dns,
    /// Looks on the local network.
    Mdns,
    /// Takes the addresses that were given by hand.
    Static,
}

/// The services that a node uses, in the order in which it installs them.
pub open spec fn services(n0: bool, mdns: bool, by_hand: bool) -> Seq<DiscoveryService> {
    (if n0 {
        seq![DiscoveryService::PkarrPublisher, DiscoveryService::Dns]
    } else {
        Seq::empty()
    }) + (if mdns {
        seq![DiscoveryService::Mdns]
    } else {
        Seq::empty()
    }) + (if by_hand {
        seq![DiscoveryService::Static]
    } else {
        Seq::empty()
    })
}

impl XaeroFluxConfig {
    /// The discovery services of a node with this configuration.
    pub fn discovery_services(&self) -> (r: Vec<DiscoveryService>)
        ensures
            r@ == services(
                self.use_n0_discovery,
                self.use_mdns,
                self.static_provider is Some,
            ),
    {
        let mut r: Vec<DiscoveryService> = Vec::new();
        if self.use_n0_discovery {
            r.push(DiscoveryService::PkarrPublisher);
            r.push(DiscoveryService::Dns);
        }
        if self.use_mdns {
            r.push(DiscoveryService::Mdns);
        }
        if self.static_provider.is_some() {
            r.push(DiscoveryService::Static);
        }
        assert(r@ =~= services(
            self.use_n0_discovery,
            self.use_mdns,
            self.static_provider is Some,
        ));
        r
    }
}

/// The keys among the results of reading identifiers, in their order.
pub open spec fn valid_keys(parsed: Seq<Option<Seq<u8>>>) -> Seq<Seq<u8>>
    decreases parsed.len(),
{
    if parsed.len() == 0 {
        Seq::empty()
    } else {
        match parsed.last() {
            Some(key) => valid_keys(parsed.drop_last()).push(key),
            None => valid_keys(parsed.drop_last()),
        }
    }
}

/// What a list of read identifiers holds.
pub open spec fn parsed_keys(parsed: Seq<Option<[u8; 32]>>) -> Seq<Option<Seq<u8>>> {
    parsed.map_values(
        |p: Option<[u8; 32]>|
            match p {
                Some(key) => Some(key@),
                None => None,
            },
    )
}

/// The bytes of each key of a list.
pub open spec fn key_bytes(keys: Seq<[u8; 32]>) -> Seq<Seq<u8>> {
    keys.map_values(|k: [u8; 32]| k@)
}

/// Keeps the identifiers that could be read.
pub fn keep_valid(parsed: &Vec<Option<[u8; 32]>>) -> (r: Vec<[u8; 32]>)
    ensures
        key_bytes(r@) == valid_keys(parsed_keys(parsed@)),
{
    let mut r: Vec<[u8; 32]> = Vec::new();
    let mut i: usize = 0;
    let ghost all = parsed_keys(parsed@);
    assert(all.take(0) =~= Seq::<Option<Seq<u8>>>::empty());
    assert(key_bytes(r@) =~= Seq::<Seq<u8>>::empty());
    while i < parsed.len()
        invariant
            i <= parsed@.len(),
            all == parsed_keys(parsed@),
            key_bytes(r@) == valid_keys(all.take(i as int)),
        decreases parsed@.len() - i,
    {
        let ghost before = r@;
        assert(all.take(i + 1).drop_last() =~= all.take(i as int));
        match parsed[i] {
            Some(key) => {
                r.push(key);
                assert(key_bytes(r@) =~= key_bytes(before).push(key@));
            },
            None => {},
        }
        i += 1;
    }
    assert(all.take(all.len() as int) =~= all);
    r
}

impl XaeroFluxConfig {
    /// The keys of the peers to start from. Texts that are no identifier are left out.
    pub fn bootstrap_ids(&self) -> (r: Vec<[u8; 32]>)
        ensures
            key_bytes(r@) == valid_keys(
                texts(self.bootstrap_peers@).map_values(|t: Seq<char>| node_key_of(t)),
            ),
    {
        let mut parsed: Vec<Option<[u8; 32]>> = Vec::new();
        let mut i: usize = 0;
        let ghost results = texts(self.bootstrap_peers@).map_values(
            |t: Seq<char>| node_key_of(t),
        );
        while i < self.bootstrap_peers.len()
            invariant
                i <= self.bootstrap_peers@.len(),
                results == texts(self.bootstrap_peers@).map_values(
                    |t: Seq<char>| node_key_of(t),
                ),
                parsed@.len() == i,
                forall|j: int| 0 <= j < i ==> parsed_keys(parsed@)[j] == #[trigger] results[j],
            decreases self.bootstrap_peers@.len() - i,
        {
            let ghost before = parsed@;
            parsed.push(parse_node_id(self.bootstrap_peers[i].as_str()).ok());
            assert forall|j: int| 0 <= j < i + 1 implies parsed_keys(parsed@)[j]
                == #[trigger] results[j] by {
                if j < i {
                    assert(parsed_keys(before)[j] == results[j]);
                }
            }
            i += 1;
        }
        assert(parsed_keys(parsed@) =~= results);
        keep_valid(&parsed)
    }
}

} // verus!
