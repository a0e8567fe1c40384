//! The settings of a bootstrap node, from the variables of its environment.

use vstd::prelude::*;

use crate::config::{is_default, XaeroFluxBuilder, XaeroFluxConfig};
use crate::text::{opt_text, same_text};

verus! {

/// The file that holds a node's secret key. It stands beside the database.
pub const KEY_FILE: &'static str = "node.key";

/// The file that the rendezvous config is published to where nothing else is said. It stands beside
/// the database.
pub const RENDEZVOUS_FILE: &'static str = "rendezvous.json";

/// The directory of files that stand beside the database, given the directory that the database's
/// path names: the present one where it names none.
pub fn directory(named: Option<String>) -> (r: String)
    ensures
        r@ == value_or(named, "."@),
{
    or_default(named, ".")
}

/// The values of the variables, where they are set.
#[derive(Debug)]
pub struct Variables {
    /// `RELAY_URL`
    pub relay_url: Option<String>,
    /// `DISCOVERY_KEY`
    pub discovery_key: Option<String>,
    /// `DB_PATH`
    pub db_path: Option<String>,
    /// `NO_N0`
    pub no_n0: Option<String>,
    /// `IGGY_ADDR`
    pub iggy_addr: Option<String>,
    /// `IGGY_ENABLED`
    pub iggy_enabled: Option<String>,
    /// `XAEROFLUX_ENV`
    pub env: Option<String>,
    /// `RENDEZVOUS_PATH`
    pub rendezvous_path: Option<String>,
}

/// The settings of a bootstrap node.
#[derive(Debug)]
pub struct Settings {
    pub relay_url: Option<String>,
    pub discovery_key: String,
    pub db_path: String,
    /// Whether the node does without n0's servers.
    pub no_n0: bool,
    pub iggy_addr: String,
    /// Whether events are forwarded.
    pub iggy_enabled: bool,
    /// The deployment that the node belongs to.
    pub env: String,
    /// Where the rendezvous config is published. Where nothing is said, it stands beside the
    /// database.
    pub rendezvous_path: Option<String>,
}

/// A value, or what stands for it where it is not set.
pub open spec fn value_or(value: Option<String>, default: Seq<char>) -> Seq<char> {
    match value {
        Some(v) => v@,
        None => default,
    }
}

fn or_default(value: Option<String>, default: &str) -> (r: String)
    ensures
        r@ == value_or(value, default@),
{
    match value {
        Some(v) => v,
        None => default.to_owned(),
    }
}

/// The settings that the variables give.
pub fn settings(vars: Variables) -> (r: Settings)
    ensures
        r.relay_url == vars.relay_url,
        r.discovery_key@ == value_or(vars.discovery_key, "cyan-dev"@),
        r.db_path@ == value_or(vars.db_path, "/opt/cyan/data/bootstrap.db"@),
        r.no_n0 == (opt_text(vars.no_n0) == Some("1"@)),
        r.iggy_addr@ == value_or(vars.iggy_addr, "127.0.0.1:8090"@),
        r.iggy_enabled == (opt_text(vars.iggy_enabled) != Some("0"@)),
        r.env@ == value_or(vars.env, "dev"@),
        r.rendezvous_path == vars.rendezvous_path,
{
    Settings {
        relay_url: vars.relay_url,
        discovery_key: or_default(vars.discovery_key, "cyan-dev"),
        db_path: or_default(vars.db_path, "/opt/cyan/data/bootstrap.db"),
        no_n0: match &vars.no_n0 {
            Some(v) => same_text(v.as_str(), "1"),
            None => false,
        },
        iggy_addr: or_default(vars.iggy_addr, "127.0.0.1:8090"),
        iggy_enabled: match &vars.iggy_enabled {
            Some(v) => !same_text(v.as_str(), "0"),
            None => true,
        },
        env: or_default(vars.env, "dev"),
        rendezvous_path: vars.rendezvous_path,
    }
}

impl Settings {
    /// Where the rendezvous config is published, given the path of its file beside the database.
    pub fn rendezvous_target(&self, beside: String) -> (r: String)
        ensures
            r@ == value_or(self.rendezvous_path, beside@),
    {
        match &self.rendezvous_path {
            Some(path) => path.clone(),
            None => beside,
        }
    }

    /// The configuration of the node with these settings.
    pub fn config(&self) -> (r: XaeroFluxConfig)
        ensures
            exists|d: XaeroFluxConfig| #[trigger]
                is_default(d) && r == (XaeroFluxConfig {
                    discovery_key: self.discovery_key,
                    db_path: self.db_path,
                    relay_url: self.relay_url,
                    use_n0_discovery: !self.no_n0,
                    ..d
                }),
    {
        let builder: XaeroFluxBuilder = XaeroFluxBuilder::new();
        let ghost d = builder@;
        let builder: XaeroFluxBuilder = builder.discovery_key(self.discovery_key.clone()).db_path(
            self.db_path.clone(),
        );
        let builder: XaeroFluxBuilder = match &self.relay_url {
            Some(url) => builder.relay_url(url.clone()),
            None => builder,
        };
        let builder: XaeroFluxBuilder = if self.no_n0 {
            builder.no_n0_discovery()
        } else {
            builder
        };
        assert(is_default(d));
        builder.into_config()
    }
}

} // verus!
