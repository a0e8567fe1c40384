//! XaeroFlux: an event sync engine for meshes of peers.
//!
//! Nodes of a mesh exchange events over gossip, learn from each other which groups they are in,
//! hand snapshots of groups to newcomers, and share blobs. This crate holds the decisions: what a
//! node stores, says, answers, signs and accepts. Sockets, files, the database and the clock's
//! timers belong to the program around it, which asks this crate what to do next and tells it what
//! came of it.
//!
//! - [`events`]: events, their identifiers, and which of them are stored and delivered.
//! - [`peers`], [`discovery`], [`exchange`]: who is online in which group, the topics of a mesh,
//!   and the introduction of peers.
//! - [`snapshot`], [`snapshot_data`], [`snapshot_change`], [`snapshot_read`]: snapshots of groups.
//! - [`swarm`], [`fetch`]: blobs, who holds them, and how they are fetched.
//! - [`identity`], [`rendezvous`], [`rendezvous_read`], [`node`], [`config`]: keys, the signed config
//!   by which a bootstrap node is found, and the configuration of a node.
//! - [`bridge`], [`forwarder`], [`settings`]: the bootstrap program, which forwards the events of
//!   groups to the enrichment pipeline.
//! - [`json`], [`json_pretty`], [`json_unique`], [`frame`], [`hex_text`], [`digest`], [`text`],
//!   [`string_map`], [`clock`]: what the others are built from.
//!
//! The modules whose names end in `_laws` hold no code that runs. They state what the others do over
//! all inputs and over whole runs: how results relate to what went in, and how calls relate to each
//! other.

pub mod bridge;
pub mod bridge_laws;
pub mod clock;
pub mod config;
pub mod config_laws;
pub mod digest;
pub mod discovery;
pub mod discovery_laws;
pub mod events;
pub mod events_laws;
pub mod exchange;
pub mod exchange_laws;
pub mod fetch;
pub mod fetch_laws;
pub mod forwarder;
pub mod forwarder_laws;
pub mod frame;
pub mod hex_text;
pub mod identity;
pub mod json;
pub mod json_laws;
pub mod json_pretty;
pub mod json_unique;
pub mod model_laws;
pub mod node;
pub mod payload_laws;
pub mod peers;
pub mod peers_laws;
pub mod rendezvous;
pub mod rendezvous_laws;
pub mod rendezvous_read;
pub mod settings;
pub mod snapshot;
pub mod snapshot_change;
pub mod snapshot_data;
pub mod snapshot_laws;
pub mod snapshot_read;
pub mod string_map;
pub mod swarm;
pub mod text;
pub mod text_laws;
pub mod value_laws;

pub use config::{XaeroFluxBuilder, XaeroFluxConfig};
pub use events::{generate_event_id, Event};
pub use node::XaeroFlux;
