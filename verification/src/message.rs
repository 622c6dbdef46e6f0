//! The message behaviour: which peers are known, which message types have a
//! receiver for all peers, and what the swarm is asked to do.
use vstd::prelude::*;
use std::collections::VecDeque;
use crate::peers::{ConnectedPoint, ConnectionId, PeerId, PeerSet};

verus! {

/// Configuration of the message behaviour.
#[derive(Clone, Copy, Debug, Default, PartialEq, Eq)]
pub struct MessageConfig {}

/// The name under which the message protocol is negotiated.
#[derive(Debug, Default)]
pub struct MessageProtocol {}

impl MessageProtocol {
    /// The protocol's name.
    pub fn protocol_info(&self) -> (name: &'static str)
        ensures
            name@ == "/nimiq/message/0.0.1"@,
    {
        "/nimiq/message/0.0.1"
    }
}

/// What the message behaviour reports to the swarm's owner.
#[derive(Debug, PartialEq, Eq)]
pub enum NetworkEvent {
    PeerJoined(PeerId),
    PeerLeft(PeerId),
}

/// What the message behaviour tells a connection's handler.
#[derive(Debug, PartialEq, Eq)]
pub enum HandlerInEvent {
    /// The connection is up. `outbound` tells whether we opened it;
    /// `receive_from_all` lists the message types whose receiver is to be
    /// registered with the peer before any message is read.
    PeerConnected { peer_id: PeerId, outbound: bool, receive_from_all: Vec<u64> },
}

/// Why a peer was closed.
#[derive(Clone, Copy, Debug, PartialEq, Eq)]
pub enum CloseReason {
    Other,
    RemoteClosed,
    Error,
}

/// What a connection's handler tells the message behaviour.
#[derive(Debug, PartialEq, Eq)]
pub enum HandlerOutEvent {
    PeerJoined { peer: PeerId },
    PeerClosed { peer: PeerId, reason: CloseReason },
}

/// What the message behaviour asks of the swarm.
#[derive(Debug, PartialEq, Eq)]
pub enum MessageAction {
    /// Report `0` to the swarm's owner.
    GenerateEvent(NetworkEvent),
    /// Hand `event` to every handler of the peer.
    NotifyHandler { peer_id: PeerId, event: HandlerInEvent },
}

/// The message behaviour.
pub struct MessageBehaviour {
    config: MessageConfig,
    events: VecDeque<MessageAction>,
    peers: PeerSet,
    message_receivers: Vec<u64>,
}

impl MessageBehaviour {
    /// The actions that wait for the swarm, oldest first.
    pub closed spec fn queue(&self) -> Seq<MessageAction> {
        self.events@
    }

    /// The identities of the peers that have joined and not left.
    pub closed spec fn known_peers(&self) -> Set<Seq<u8>> {
        self.peers@
    }

    /// The message types that have a receiver for all peers, in the order in
    /// which they were registered.
    pub closed spec fn receivers(&self) -> Seq<u64> {
        self.message_receivers@
    }

    /// The behaviour with no peer, no receiver and nothing to do.
    pub fn new(config: MessageConfig) -> (behaviour: MessageBehaviour)
        ensures
            behaviour.queue() == Seq::<MessageAction>::empty(),
            behaviour.known_peers() == Set::<Seq<u8>>::empty(),
            behaviour.receivers() == Seq::<u64>::empty(),
    {
        MessageBehaviour {
            config,
            events: VecDeque::new(),
            peers: PeerSet::new(),
            message_receivers: Vec::new(),
        }
    }

    /// Whether a receiver for all peers is registered for `type_id`.
    pub fn is_registered(&self, type_id: u64) -> (registered: bool)
        ensures
            registered == self.receivers().contains(type_id),
    {
        let mut i: usize = 0;
        while i < self.message_receivers.len()
            invariant
                i <= self.message_receivers.len(),
                forall|j: int| 0 <= j < i ==> self.message_receivers[j] != type_id,
            decreases self.message_receivers.len() - i,
        {
            if self.message_receivers[i] == type_id {
                return true;
            }
            i = i + 1;
        }
        false
    }

    /// Registers a receiver for messages of type `type_id` from all peers.
    /// Every peer that connects later gets it before any message is read.
    /// A type can have one such receiver only.
    pub fn receive_from_all(&mut self, type_id: u64)
        requires
            !old(self).receivers().contains(type_id),
        ensures
            final(self).receivers() == old(self).receivers().push(type_id),
            final(self).queue() == old(self).queue(),
            final(self).known_peers() == old(self).known_peers(),
    {
        self.message_receivers.push(type_id);
    }

    /// Registers a receiver for `type_id` unless the type has one, and tells
    /// whether it did.
    pub fn try_receive_from_all(&mut self, type_id: u64) -> (registered: bool)
        ensures
            registered == !old(self).receivers().contains(type_id),
            registered ==> final(self).receivers() == old(self).receivers().push(type_id),
            !registered ==> final(self).receivers() == old(self).receivers(),
            final(self).queue() == old(self).queue(),
            final(self).known_peers() == old(self).known_peers(),
    {
        if self.is_registered(type_id) {
            false
        } else {
            self.receive_from_all(type_id);
            true
        }
    }

    /// The configuration, for a new connection's handler.
    pub fn config(&self) -> (config: MessageConfig)
        ensures
            config == (MessageConfig {  }),
    {
        self.config
    }

    /// A connection was established: the peer's handlers are told on which
    /// side we are and which receivers to register.
    pub fn inject_connection_established(
        &mut self,
        peer_id: &PeerId,
        connection_id: &ConnectionId,
        connected_point: &ConnectedPoint,
    )
        ensures
            final(self).known_peers() == old(self).known_peers(),
            final(self).receivers() == old(self).receivers(),
            final(self).queue().len() == old(self).queue().len() + 1,
            final(self).queue().drop_last() == old(self).queue(),
            match final(self).queue().last() {
                MessageAction::NotifyHandler {
                    peer_id: to,
                    event: HandlerInEvent::PeerConnected { peer_id: who, outbound, receive_from_all },
                } => to@ == peer_id@ && who@ == peer_id@ && outbound == (*connected_point
                    is Dialer) && receive_from_all@ == old(self).receivers(),
                _ => false,
            },
    {
        let action = MessageAction::NotifyHandler {
            peer_id: peer_id.clone(),
            event: HandlerInEvent::PeerConnected {
                peer_id: peer_id.clone(),
                outbound: connected_point.is_dialer(),
                receive_from_all: self.message_receivers.clone(),
            },
        };
        self.events.push_back(action);
        assert(self.events@.drop_last() =~= old(self).events@);
    }

    /// A connection was closed: where the peer is still known, it is
    /// forgotten and reported as having left.
    pub fn inject_connection_closed(
        &mut self,
        peer_id: &PeerId,
        connection_id: &ConnectionId,
        connected_point: &ConnectedPoint,
    )
        ensures
            final(self).known_peers() == old(self).known_peers().remove(peer_id@),
            final(self).receivers() == old(self).receivers(),
            !old(self).known_peers().contains(peer_id@) ==> final(self).queue() == old(
                self,
            ).queue(),
            old(self).known_peers().contains(peer_id@) ==> final(self).queue().len() == old(
                self,
            ).queue().len() + 1 && final(self).queue().drop_last() == old(self).queue()
                && match final(self).queue().last() {
                MessageAction::GenerateEvent(NetworkEvent::PeerLeft(who)) => who@ == peer_id@,
                _ => false,
            },
    {
        if self.peers.remove(peer_id) {
            self.events.push_back(
                MessageAction::GenerateEvent(NetworkEvent::PeerLeft(peer_id.clone())),
            );
            assert(self.events@.drop_last() =~= old(self).events@);
        }
    }

    /// A handler reported `event`: a peer that joined is remembered, a peer
    /// that was closed is forgotten, and either is reported.
    pub fn inject_event(&mut self, peer_id: PeerId, connection: ConnectionId, event: HandlerOutEvent)
        ensures
            final(self).receivers() == old(self).receivers(),
            final(self).queue().len() == old(self).queue().len() + 1,
            final(self).queue().drop_last() == old(self).queue(),
            match event {
                HandlerOutEvent::PeerJoined { peer } => final(self).known_peers() == old(
                    self,
                ).known_peers().insert(peer@) && final(self).queue().last()
                    == MessageAction::GenerateEvent(NetworkEvent::PeerJoined(peer)),
                HandlerOutEvent::PeerClosed { peer, reason } => final(self).known_peers() == old(
                    self,
                ).known_peers().remove(peer_id@) && final(self).queue().last()
                    == MessageAction::GenerateEvent(NetworkEvent::PeerLeft(peer)),
            },
    {
        match event {
            HandlerOutEvent::PeerJoined { peer } => {
                self.peers.insert(peer.clone());
                self.events.push_back(MessageAction::GenerateEvent(NetworkEvent::PeerJoined(peer)));
            },
            HandlerOutEvent::PeerClosed { peer, reason } => {
                self.peers.remove(&peer_id);
                self.events.push_back(MessageAction::GenerateEvent(NetworkEvent::PeerLeft(peer)));
            },
        }
        assert(self.events@.drop_last() =~= old(self).events@);
    }

    /// The oldest action that waits, if there is one.
    pub fn poll(&mut self) -> (action: Option<MessageAction>)
        ensures
            final(self).known_peers() == old(self).known_peers(),
            final(self).receivers() == old(self).receivers(),
            match action {
                Some(a) => old(self).queue().len() > 0 && a == old(self).queue()[0]
                    && final(self).queue() == old(self).queue().skip(1),
                None => old(self).queue().len() == 0 && final(self).queue() == old(self).queue(),
            },
    {
        let action = self.events.pop_front();
        proof {
            if action.is_some() {
                assert(self.events@ =~= old(self).events@.skip(1));
            }
        }
        action
    }
}

} // verus!
