//! Forwarding: from the events of a mesh to the stream of the enrichment pipeline.
//!
//! A [`Forwarder`] converts events, counts them, and keeps the state of the connection to the
//! stream. The connection itself belongs to the program around this library.

use vstd::prelude::*;
use vstd::utf8::encode_utf8;

use crate::bridge::{
    convert_network_event_at, raw_event_of, raw_event_text, raw_event_value, scopes_after,
    NetworkEvent, RawEvent, RawEventModel, ScopeTracker, Scopes,
};
use crate::clock::{current_ts, gen_id, is_drawn_id, is_now, is_uuid_v4};
use crate::discovery::{group_of_source, source_group};
use crate::json::written;
use crate::text::{decimal, decimal_text, joined, opt_text};

verus! {

/// The stream that raw events go to.
pub const STREAM_NAME: &'static str = "cyan-lens";

/// The topic of the stream.
pub const TOPIC_NAME: &'static str = "events.raw";

/// The number of partitions of the topic.
pub const PARTITIONS: u32 = 1;

// ---------------------------------------------------------------------------------------------
// The connection
// ---------------------------------------------------------------------------------------------

/// The state of the connection to the stream.
#[derive(Debug)]
pub struct IggyConnection {
    pub addr: String,
    pub enabled: bool,
    pub connected: bool,
    pub last_error: Option<String>,
    pub messages_sent: u64,
}

/// The model of an [`IggyConnection`].
pub struct ConnectionModel {
    pub addr: Seq<char>,
    pub enabled: bool,
    pub connected: bool,
    pub last_error: Option<Seq<char>>,
    pub messages_sent: u64,
}

impl View for IggyConnection {
    type V = ConnectionModel;

    open spec fn view(&self) -> ConnectionModel {
        ConnectionModel {
            addr: self.addr@,
            enabled: self.enabled,
            connected: self.connected,
            last_error: opt_text(self.last_error),
            messages_sent: self.messages_sent,
        }
    }
}

/// What is to be done to send a raw event.
#[derive(Debug)]
pub enum SendStep {
    /// Nothing: forwarding is switched off, and the event counts as sent.
    Skip,
    /// Nothing: there is no connection. The reason is given.
    Refuse(String),
    /// Send these bytes.
    Send(Vec<u8>),
}

/// One more than a counter shows. A counter starts again at zero when it is full.
pub open spec fn counted(n: u64) -> u64 {
    if n == u64::MAX {
        0
    } else {
        (n + 1) as u64
    }
}

fn count(n: u64) -> (r: u64)
    ensures
        r == counted(n),
{
    if n == u64::MAX {
        0
    } else {
        n + 1
    }
}

/// The state of a connection in words.
pub open spec fn status_text(c: ConnectionModel) -> Seq<char> {
    if !c.enabled {
        "disabled"@
    } else if c.connected {
        "connected ("@ + decimal(c.messages_sent as nat) + " sent)"@
    } else {
        "disconnected: "@ + (match c.last_error {
            Some(e) => e,
            None => "unknown"@,
        })
    }
}

impl IggyConnection {
    /// A connection that was not made yet.
    pub fn new(addr: String, enabled: bool) -> (r: Self)
        ensures
            r@ == (ConnectionModel {
                addr: addr@,
                enabled,
                connected: false,
                last_error: None,
                messages_sent: 0,
            }),
    {
        IggyConnection { addr, enabled, connected: false, last_error: None, messages_sent: 0 }
    }

    /// Whether a connection has to be made: where forwarding is on and there is none.
    pub fn wants_connection(&self) -> (r: bool)
        ensures
            r == (self@.enabled && !self@.connected),
    {
        self.enabled && !self.is_connected()
    }

    /// Records that a connection was made.
    pub fn on_connected(&mut self)
        ensures
            final(self)@ == (ConnectionModel { connected: true, last_error: None, ..old(self)@ }),
    {
        self.connected = true;
        self.last_error = None;
    }

    /// What is to be done to send a raw event. Without a connection the reason is kept.
    pub fn send_raw_event(&mut self, raw_event: &RawEvent) -> (r: SendStep)
        ensures
            match r {
                SendStep::Skip => !old(self)@.enabled && final(self)@ == old(self)@,
                SendStep::Refuse(reason) => {
                    &&& old(self)@.enabled && !old(self)@.connected
                    &&& reason@ == "Not connected to Iggy"@
                    &&& final(self)@ == (ConnectionModel {
                        last_error: Some("Not connected"@),
                        ..old(self)@
                    })
                },
                SendStep::Send(bytes) => {
                    &&& old(self)@.enabled && old(self)@.connected
                    &&& bytes@ == encode_utf8(written(raw_event_value(raw_event@)))
                    &&& final(self)@ == old(self)@
                },
            },
    {
        if !self.enabled {
            return SendStep::Skip;
        }
        if !self.connected {
            self.last_error = Some("Not connected".to_owned());
            return SendStep::Refuse("Not connected to Iggy".to_owned());
        }
        SendStep::Send(raw_event_text(raw_event).as_str().as_bytes_vec())
    }

    /// Records what came of sending: one more message was sent, or the connection is lost. The
    /// error is handed on in words.
    pub fn on_sent(&mut self, outcome: Result<(), String>) -> (r: Result<(), String>)
        ensures
            match outcome {
                Ok(_) => r is Ok && final(self)@ == (ConnectionModel {
                    messages_sent: counted(old(self)@.messages_sent),
                    last_error: None,
                    ..old(self)@
                }),
                Err(e) => r is Err && r->Err_0@ == "Iggy send error: "@ + e@ && final(self)@ == (
                ConnectionModel {
                    connected: false,
                    last_error: Some("Iggy send error: "@ + e@),
                    ..old(self)@
                }),
            },
    {
        match outcome {
            Ok(_) => {
                self.messages_sent = count(self.messages_sent);
                self.last_error = None;
                Ok(())
            },
            Err(e) => {
                let error: String = joined("Iggy send error: ", e.as_str());
                self.last_error = Some(error.clone());
                self.connected = false;
                Err(error)
            },
        }
    }

    /// Whether there is a connection.
    pub fn is_connected(&self) -> (r: bool)
        ensures
            r == self@.connected,
    {
        self.connected
    }

    /// The number of messages that were sent.
    pub fn messages_sent(&self) -> (r: u64)
        ensures
            r == self@.messages_sent,
    {
        self.messages_sent
    }

    /// The state in words.
    pub fn status(&self) -> (r: String)
        ensures
            r@ == status_text(self@),
    {
        if !self.enabled {
            "disabled".to_owned()
        } else if self.connected {
            let mut s: String = joined("connected (", decimal_text(self.messages_sent).as_str());
            s.append(" sent)");
            s
        } else {
            match &self.last_error {
                Some(e) => joined("disconnected: ", e.as_str()),
                None => joined("disconnected: ", "unknown"),
            }
        }
    }
}

// ---------------------------------------------------------------------------------------------
// The forwarder
// ---------------------------------------------------------------------------------------------

/// Converts events and counts what became of them.
pub struct Forwarder {
    tracker: ScopeTracker,
    received: u64,
    converted: u64,
    forwarded: u64,
}

/// The model of a [`Forwarder`].
pub struct ForwarderModel {
    pub scopes: Scopes,
    pub received: u64,
    pub converted: u64,
    pub forwarded: u64,
}

impl View for Forwarder {
    type V = ForwarderModel;

    closed spec fn view(&self) -> ForwarderModel {
        ForwarderModel {
            scopes: self.tracker@,
            received: self.received,
            converted: self.converted,
            forwarded: self.forwarded,
        }
    }
}

/// What is forwarded of an event that came from a source, under an identifier and at a time. One
/// that is no event of a group is not forwarded.
pub open spec fn forwarded_of(
    source: Seq<char>,
    event: Option<NetworkEvent>,
    scopes: Scopes,
    id: Seq<char>,
    now: u64,
) -> Option<RawEventModel> {
    match event {
        Some(e) => raw_event_of(e, group_of_source(source), scopes_after(e, scopes), id, now),
        None => None,
    }
}

/// A forwarder after an event, given whether something is forwarded of it.
pub open spec fn after_event(
    f: ForwarderModel,
    event: Option<NetworkEvent>,
    converted: bool,
) -> ForwarderModel {
    ForwarderModel {
        scopes: match event {
            Some(e) => scopes_after(e, f.scopes),
            None => f.scopes,
        },
        received: counted(f.received),
        converted: if converted {
            counted(f.converted)
        } else {
            f.converted
        },
        forwarded: f.forwarded,
    }
}

impl Forwarder {
    /// What is known of scopes is in order.
    pub closed spec fn wf(&self) -> bool {
        self.tracker.wf()
    }

    /// A forwarder that has seen nothing.
    pub fn new() -> (r: Self)
        ensures
            r.wf(),
            r@ == (ForwarderModel {
                scopes: (Scopes { groups: Map::empty(), workspaces: Map::empty() }),
                received: 0,
                converted: 0,
                forwarded: 0,
            }),
    {
        Forwarder { tracker: ScopeTracker::new(), received: 0, converted: 0, forwarded: 0 }
    }

    /// Takes in an event, given the identifier and the time that the result carries.
    pub fn on_event_at(
        &mut self,
        source: &str,
        event: &Option<NetworkEvent>,
        id: String,
        now: u64,
    ) -> (r: Option<RawEvent>)
        requires
            old(self).wf(),
        ensures
            final(self).wf(),
            final(self)@ == after_event(old(self)@, *event, r is Some),
            match r {
                Some(e) => forwarded_of(source@, *event, old(self)@.scopes, id@, now) == Some(e@),
                None => forwarded_of(source@, *event, old(self)@.scopes, id@, now) is None,
            },
    {
        self.received = count(self.received);
        match event {
            Some(e) => {
                let group: String = source_group(source);
                let raw: Option<RawEvent> = convert_network_event_at(
                    e,
                    group.as_str(),
                    &mut self.tracker,
                    id,
                    now,
                );
                if raw.is_some() {
                    self.converted = count(self.converted);
                }
                raw
            },
            None => None,
        }
    }

    /// Takes in an event now.
    pub fn on_event(&mut self, source: &str, event: &Option<NetworkEvent>) -> (r: Option<RawEvent>)
        requires
            old(self).wf(),
        ensures
            final(self).wf(),
            final(self)@ == after_event(old(self)@, *event, r is Some),
            exists|id: Seq<char>, now: u64|
                is_drawn_id(id) && is_uuid_v4(id) && is_now(now) && match r {
                    Some(e) => #[trigger] forwarded_of(
                        source@,
                        *event,
                        old(self)@.scopes,
                        id,
                        now,
                    ) == Some(e@),
                    None => forwarded_of(source@, *event, old(self)@.scopes, id, now) is None,
                },
    {
        let id: String = gen_id();
        let ghost drawn = id@;
        let now: u64 = current_ts();
        let r: Option<RawEvent> = self.on_event_at(source, event, id, now);
        assert(is_drawn_id(drawn) && is_uuid_v4(drawn) && is_now(now));
        r
    }

    /// Records that a raw event was sent, or that forwarding is switched off.
    pub fn on_forwarded(&mut self)
        requires
            old(self).wf(),
        ensures
            final(self).wf(),
            final(self)@ == (ForwarderModel {
                forwarded: counted(old(self)@.forwarded),
                ..old(self)@
            }),
    {
        self.forwarded = count(self.forwarded);
    }

    /// How many events were received, converted and forwarded.
    pub fn counters(&self) -> (r: (u64, u64, u64))
        ensures
            r == (self@.received, self@.converted, self@.forwarded),
    {
        (self.received, self.converted, self.forwarded)
    }

    /// How many workspaces and boards are known.
    pub fn scope_sizes(&self) -> (r: (usize, usize))
        requires
            self.wf(),
        ensures
            r.0 == self@.scopes.groups.len(),
            r.1 == self@.scopes.workspaces.len(),
    {
        self.tracker.sizes()
    }
}

} // verus!
