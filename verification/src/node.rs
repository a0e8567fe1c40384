//! A node as the program around this library holds it: what it is called, and what it can sign.

use vstd::prelude::*;

use crate::clock::{current_ts, is_now};
use crate::config::{is_default, XaeroFluxBuilder, XaeroFluxConfig};
use crate::digest::lower_hex;
use crate::identity::{
    ed25519_public, ed25519_signature, has_neutral_nonce, node_id_of,
};
use crate::rendezvous::{
    canonical, publish_signed, published, sign_config, verdict, BootstrapInfo, ConfigModel,
    ConfigSink, RendezvousConfig, SignedRendezvousConfig, SinkError,
};
use crate::text::{opt_text, texts};

verus! {

/// What a node says of itself, given what it is called, the deployment, the relay that is set, the time, and the
/// addresses and the relays that are observed on its endpoint. The relay is the one that is set, or
/// else the first that is observed.
pub open spec fn advertised(
    discovery_key: Seq<char>,
    node_id: Seq<char>,
    env: Seq<char>,
    relay_url: Option<Seq<char>>,
    ts: u64,
    direct: Seq<Seq<char>>,
    observed_relays: Seq<Seq<char>>,
) -> ConfigModel {
    ConfigModel {
        env,
        discovery_key,
        node_id,
        addr: direct,
        relay_url: if relay_url is Some {
            relay_url
        } else if observed_relays.len() > 0 {
            Some(observed_relays[0])
        } else {
            None
        },
        ts,
    }
}

/// A secret key that can be held but not read. All that it does is to sign the config that a node
/// publishes of itself.
pub struct SigningKey {
    bytes: [u8; 32],
}

impl View for SigningKey {
    type V = Seq<u8>;

    closed spec fn view(&self) -> Seq<u8> {
        self.bytes@
    }
}

/// A node of a mesh.
pub struct XaeroFlux {
    pub discovery_key: String,
    pub node_id: String,
    pub signing_key: SigningKey,
}

impl XaeroFlux {
    /// The node is called by its public key.
    pub open spec fn wf(&self) -> bool {
        self.node_id@ == lower_hex(ed25519_public(self.signing_key@))
    }

    /// Starts the configuration of a node.
    pub fn builder() -> (r: XaeroFluxBuilder)
        ensures
            is_default(r@),
    {
        XaeroFluxBuilder::new()
    }

    /// The configuration of a node with a discovery key and a database, and the defaults otherwise.
    pub fn config(discovery_key: String, db_path: String) -> (r: XaeroFluxConfig)
        ensures
            exists|d: XaeroFluxConfig| #[trigger]
                is_default(d) && r == (XaeroFluxConfig { discovery_key, db_path, ..d }),
    {
        XaeroFlux::builder().discovery_key(discovery_key).db_path(db_path).into_config()
    }

    /// The same, with peers to start from.
    pub fn config_with_bootstrap(
        discovery_key: String,
        db_path: String,
        bootstrap_peers: Vec<String>,
    ) -> (r: XaeroFluxConfig)
        ensures
            exists|d: XaeroFluxConfig| #[trigger]
                is_default(d) && r == (XaeroFluxConfig {
                    discovery_key,
                    db_path,
                    bootstrap_peers,
                    ..d
                }),
    {
        XaeroFlux::builder().discovery_key(discovery_key).db_path(db_path).bootstrap_peers(
            bootstrap_peers,
        ).into_config()
    }

    /// The node with a secret key on a mesh.
    pub fn from_key(discovery_key: String, secret_key: [u8; 32]) -> (r: Self)
        ensures
            r.wf(),
            r.discovery_key == discovery_key,
            r.node_id@ == lower_hex(ed25519_public(secret_key@)),
            r.signing_key@ == secret_key@,
    {
        let node_id: String = node_id_of(&secret_key);
        XaeroFlux { discovery_key, node_id, signing_key: SigningKey { bytes: secret_key } }
    }

    /// The config by which applications find this node, signed with its own key. Where the node is
    /// called by its public key, the signer is the node that the config names.
    pub fn signed_rendezvous_config(
        &self,
        env: &str,
        relay_url: Option<String>,
        ts: u64,
        direct: Vec<String>,
        observed_relays: &Vec<String>,
    ) -> (r: SignedRendezvousConfig)
        ensures
            r.config@ == advertised(
                self.discovery_key@,
                self.node_id@,
                env@,
                opt_text(relay_url),
                ts,
                texts(direct@),
                texts(observed_relays@),
            ),
            r.signer@ == lower_hex(ed25519_public(self.signing_key@)),
            r.signature@ == lower_hex(ed25519_signature(self.signing_key@, canonical(r.config@))),
            self.wf() ==> r.signer@ == r.config@.node_id,
            !has_neutral_nonce(ed25519_signature(self.signing_key@, canonical(r.config@))) ==> verdict(
                r,
            ) is Ok,
    {
        let relay: Option<String> = match relay_url {
            Some(url) => Some(url),
            None => if observed_relays.len() > 0 {
                Some(observed_relays[0].clone())
            } else {
                None
            },
        };
        let config = RendezvousConfig {
            env: env.to_owned(),
            discovery_key: self.discovery_key.clone(),
            bootstrap: BootstrapInfo { node_id: self.node_id.clone(), addr: direct },
            relay_url: relay,
            ts,
        };
        sign_config(config, &self.signing_key.bytes)
    }

    /// Signs the config by which applications find this node as of now, and publishes it. What the
    /// sink says is handed on.
    pub fn publish_rendezvous<S: ConfigSink>(
        &self,
        sink: &S,
        env: &str,
        relay_url: Option<String>,
        direct: Vec<String>,
        observed_relays: &Vec<String>,
    ) -> (r: Result<(), SinkError>)
        ensures
            exists|signed: SignedRendezvousConfig, bytes: &[u8]|
                {
                    &&& signed.config@ == advertised(
                        self.discovery_key@,
                        self.node_id@,
                        env@,
                        opt_text(relay_url),
                        signed.config@.ts,
                        texts(direct@),
                        texts(observed_relays@),
                    )
                    &&& is_now(signed.config@.ts)
                    &&& signed.signer@ == lower_hex(ed25519_public(self.signing_key@))
                    &&& signed.signature@ == lower_hex(
                        ed25519_signature(self.signing_key@, canonical(signed.config@)),
                    )
                    &&& bytes@ == #[trigger] published(signed)
                    &&& #[trigger] call_ensures(S::publish, (sink, bytes), r)
                },
    {
        let signed: SignedRendezvousConfig = self.signed_rendezvous_config(
            env,
            relay_url,
            current_ts(),
            direct,
            observed_relays,
        );
        publish_signed(sink, &signed)
    }
}

} // verus!
