//! The session registry: the mapping from player identity to that
//! connection's outbound message channel, with registration, unicast and
//! broadcast delivery, and idempotent removal. Delivery never blocks: each
//! channel is unbounded, and a failed send is dropped.

use vstd::prelude::*;
use tokio::sync::mpsc::UnboundedSender;
use tokio_tungstenite::tungstenite::Message;
use crate::maps::IdMap;

verus! {

/// The tokio unbounded channel sender carrying this connection's outbound
/// frames; opaque here, consumed by the transport layer.
#[verifier::external_type_specification]
#[verifier::external_body]
#[verifier::reject_recursive_types(T)]
pub struct ExUnboundedSender<T>(UnboundedSender<T>);

/// The websocket frame type the channels carry; opaque here.
#[verifier::external_type_specification]
#[verifier::external_body]
pub struct ExMessage(Message);

/// Relies on tokio's `UnboundedSender::send`: it never blocks, and fails
/// exactly when the receiving half is gone. Nothing is promised of the
/// outcome; a failed delivery is dropped, and disconnect cleanup is
/// authoritative for removing stale entries.
#[verifier::external_body]
fn sink_send_text(sink: &UnboundedSender<Message>, text: &String) -> (ok: bool) {
    sink.send(Message::Text(text.clone().into())).is_ok()
}

/// Relies on tokio's `UnboundedSender::send` as above, sending a
/// tungstenite close frame.
#[verifier::external_body]
fn sink_send_close(sink: &UnboundedSender<Message>) -> (ok: bool) {
    sink.send(Message::Close(None)).is_ok()
}

/// The concurrent mapping from player identity to that connection's
/// outbound sink. The shell holds it behind its own exclusive lock; every
/// operation here is one critical section's worth of work.
pub struct SessionRegistry {
    sinks: IdMap<UnboundedSender<Message>>,
}

impl SessionRegistry {
    /// The identities of the registered connections.
    pub closed spec fn ids(&self) -> Set<u128> {
        self.sinks@.dom()
    }

    pub closed spec fn wf(&self) -> bool {
        self.sinks.wf()
    }

    pub fn new() -> (r: SessionRegistry)
        ensures
            r.wf(),
            r.ids() == Set::<u128>::empty(),
    {
        let r = SessionRegistry { sinks: IdMap::new() };
        proof {
            assert(r.ids() =~= Set::<u128>::empty());
        }
        r
    }

    pub fn contains(&self, player_id: u128) -> (r: bool)
        ensures
            r == self.ids().contains(player_id),
    {
        self.sinks.contains_key(player_id)
    }

    /// Register a new connection's sink; called once per connection,
    /// before any message is sent to it.
    pub fn register(&mut self, player_id: u128, sink: UnboundedSender<Message>)
        requires
            old(self).wf(),
            !old(self).ids().contains(player_id),
        ensures
            final(self).wf(),
            final(self).ids() == old(self).ids().insert(player_id),
    {
        self.sinks.insert(player_id, sink);
        proof {
            assert(self.ids() =~= old(self).ids().insert(player_id));
        }
    }

    /// Remove a connection's sink; removing an absent identity changes
    /// nothing, so removal is idempotent.
    pub fn remove(&mut self, player_id: u128)
        requires
            old(self).wf(),
        ensures
            final(self).wf(),
            final(self).ids() == old(self).ids().remove(player_id),
    {
        self.sinks.remove(player_id);
        proof {
            assert(self.ids() =~= old(self).ids().remove(player_id));
        }
    }

    /// Best-effort delivery of one text frame to one connection; a missing
    /// identity or a closed sink is dropped, never escalated.
    pub fn unicast(&self, player_id: u128, text: &String) -> (delivered: bool)
        requires
            self.wf(),
        ensures
            delivered ==> self.ids().contains(player_id),
    {
        match self.sinks.get(player_id) {
            Some(sink) => sink_send_text(sink, text),
            None => false,
        }
    }

    /// Best-effort delivery of a close signal to one connection.
    pub fn send_close(&self, player_id: u128) -> (delivered: bool)
        requires
            self.wf(),
        ensures
            delivered ==> self.ids().contains(player_id),
    {
        match self.sinks.get(player_id) {
            Some(sink) => sink_send_close(sink),
            None => false,
        }
    }

    /// Deliver one already-encoded text frame to every registered
    /// connection except an optionally excluded one; a failure to one
    /// recipient never prevents delivery to the others. The registry
    /// itself is unchanged.
    pub fn broadcast(&self, text: &String, exclude: Option<u128>)
        requires
            self.wf(),
    {
        let n = self.sinks.len();
        let mut i: usize = 0;
        while i < n
            invariant
                self.wf(),
                n == self.sinks.kvs().len(),
                0 <= i <= n,
            decreases n - i,
        {
            let id = self.sinks.key_at(i);
            let excluded: bool = match exclude {
                Some(x) => x == id,
                None => false,
            };
            if !excluded {
                let _ = sink_send_text(self.sinks.value_at(i), text);
            }
            i += 1;
        }
    }

    /// How many connections are registered.
    pub fn len(&self) -> (r: usize)
        requires
            self.wf(),
        ensures
            self.ids().finite(),
            r == self.ids().len(),
    {
        self.sinks.len()
    }
}

} // verus!
