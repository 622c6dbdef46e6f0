//! The combined behaviour of the node on the network: it owns the discovery
//! and the message behaviour, and queues the events of the message
//! behaviour and of the distributed hash table for the swarm's owner.
use vstd::prelude::*;
use std::collections::VecDeque;
use crate::discovery::{Discovery, DiscoveryAction, DiscoveryConfig, DiscoveryEvent};
use crate::message::{MessageAction, MessageBehaviour, MessageConfig, NetworkEvent};

verus! {

#[verifier::external_type_specification]
#[verifier::external_body]
pub struct ExKademliaEvent(libp2p::kad::Event);

/// What the combined behaviour reports to the swarm's owner.
pub enum NimiqEvent {
    /// A peer joined or left.
    Message(NetworkEvent),
    /// The distributed hash table reported something. The report is handed
    /// on as it came.
    Dht(libp2p::kad::Event),
}

/// The configuration of the behaviours.
#[derive(Clone, Copy, Debug, PartialEq, Eq)]
pub struct Config {
    pub discovery: DiscoveryConfig,
    pub message: MessageConfig,
}

/// The combined behaviour.
pub struct NimiqBehaviour {
    pub discovery: Discovery,
    pub message: MessageBehaviour,
    /// The events that wait for the swarm's owner, oldest first.
    pub events: VecDeque<NimiqEvent>,
}

impl NimiqEvent {
    /// The report of a peer that joined or left.
    pub fn from_network_event(event: NetworkEvent) -> (wrapped: NimiqEvent)
        ensures
            wrapped == NimiqEvent::Message(event),
    {
        NimiqEvent::Message(event)
    }

    /// The report of the distributed hash table.
    pub fn from_dht_event(event: libp2p::kad::Event) -> (wrapped: NimiqEvent)
        ensures
            wrapped == NimiqEvent::Dht(event),
    {
        NimiqEvent::Dht(event)
    }
}

impl NimiqBehaviour {
    /// The events that wait for the swarm's owner, oldest first.
    pub open spec fn queue(&self) -> Seq<NimiqEvent> {
        self.events@
    }

    /// The behaviour with fresh parts and nothing to report.
    pub fn new(config: Config) -> (behaviour: NimiqBehaviour)
        ensures
            behaviour.queue() == Seq::<NimiqEvent>::empty(),
            behaviour.discovery.spec_config() == config.discovery,
            behaviour.discovery.connected() == Set::<Seq<u8>>::empty(),
            behaviour.discovery.queue() == Seq::<DiscoveryAction>::empty(),
            behaviour.message.queue() == Seq::<MessageAction>::empty(),
            behaviour.message.known_peers() == Set::<Seq<u8>>::empty(),
            behaviour.message.receivers() == Seq::<u64>::empty(),
    {
        NimiqBehaviour {
            discovery: Discovery::new(config.discovery),
            message: MessageBehaviour::new(config.message),
            events: VecDeque::new(),
        }
    }

    /// Queues `event` for the swarm's owner. Whoever waits for events is to
    /// be woken afterwards.
    pub fn emit_event(&mut self, event: NimiqEvent)
        ensures
            final(self).queue() == old(self).queue().push(event),
            final(self).discovery == old(self).discovery,
            final(self).message == old(self).message,
    {
        self.events.push_back(event);
    }

    /// The discovery behaviour reported `event`: nothing is queued.
    pub fn inject_discovery_event(&mut self, event: DiscoveryEvent)
        ensures
            *final(self) == *old(self),
    {
    }

    /// The message behaviour reported `event`: it is queued.
    pub fn inject_network_event(&mut self, event: NetworkEvent)
        ensures
            final(self).queue() == old(self).queue().push(NimiqEvent::Message(event)),
            final(self).discovery == old(self).discovery,
            final(self).message == old(self).message,
    {
        self.emit_event(NimiqEvent::from_network_event(event));
    }

    /// The distributed hash table reported `event`: it is queued.
    pub fn inject_dht_event(&mut self, event: libp2p::kad::Event)
        ensures
            final(self).queue() == old(self).queue().push(NimiqEvent::Dht(event)),
            final(self).discovery == old(self).discovery,
            final(self).message == old(self).message,
    {
        self.emit_event(NimiqEvent::from_dht_event(event));
    }

    /// The oldest event that waits, if there is one. Where there is none,
    /// the caller registers to be woken when one comes.
    pub fn poll_event(&mut self) -> (event: Option<NimiqEvent>)
        ensures
            final(self).discovery == old(self).discovery,
            final(self).message == old(self).message,
            match event {
                Some(e) => old(self).queue().len() > 0 && e == old(self).queue()[0]
                    && final(self).queue() == old(self).queue().skip(1),
                None => old(self).queue().len() == 0 && final(self).queue() == old(self).queue(),
            },
    {
        let event = self.events.pop_front();
        proof {
            if event.is_some() {
                assert(self.events@ =~= old(self).events@.skip(1));
            }
        }
        event
    }
}

} // verus!
