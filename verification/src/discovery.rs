//! Peer discovery: the protocol's name, the challenge of its handshake and
//! the decisions of the discovery behaviour.
//!
//! The behaviour keeps the set of connected peers and a queue of actions for
//! the swarm. Every injected event appends to the queue; `poll` hands out
//! the oldest action.
use vstd::prelude::*;
use std::collections::VecDeque;
use crate::crypto::Blake2bHash;
use crate::peers::{ConnectedPoint, ConnectionId, Multiaddr, PeerId, PeerSet};

verus! {

/// The name under which the discovery protocol is negotiated.
pub struct DiscoveryProtocol;

impl DiscoveryProtocol {
    /// The protocol's name.
    pub fn protocol_info(&self) -> (name: &'static str)
        ensures
            name@ == "/nimiq/discovery/0.0.1"@,
    {
        "/nimiq/discovery/0.0.1"
    }
}

/// The random challenge that a peer must sign in its handshake answer.
#[derive(Clone, Copy, Debug, PartialEq, Eq, Hash)]
pub struct ChallengeNonce {
    pub bytes: [u8; 32],
}

/// Calls `rand::fill` on a buffer of 32 bytes. Nothing is known of the
/// bytes that come back: they differ from call to call.
#[verifier::external_body]
fn random_nonce_bytes() -> (bytes: [u8; 32]) {
    let mut bytes = [0u8; 32];
    rand::fill(&mut bytes[..]);
    bytes
}

impl ChallengeNonce {
    /// The tag under which a challenge is signed.
    pub const TAG: u8 = 0x01;

    /// A fresh random challenge.
    pub fn generate() -> (nonce: ChallengeNonce) {
        ChallengeNonce { bytes: random_nonce_bytes() }
    }

    /// The challenge that holds the given bytes.
    pub fn from_bytes(bytes: [u8; 32]) -> (nonce: ChallengeNonce)
        ensures
            nonce.bytes == bytes,
    {
        ChallengeNonce { bytes }
    }
}

/// Configuration of the discovery behaviour. Intervals are in milliseconds.
#[derive(Clone, Copy, Debug, PartialEq, Eq)]
pub struct DiscoveryConfig {
    /// Genesis hash of the network we want to be connected to.
    pub genesis_hash: Blake2bHash,
    /// Interval in which we want to be updated.
    pub update_interval: u64,
    /// Least update interval that we accept from a peer.
    pub min_recv_update_interval: u64,
    /// How many updated peer contacts we want to receive per update.
    pub update_limit: Option<u16>,
    /// Protocol flags for which we filter.
    pub protocols_filter: u32,
    /// Service flags for which we filter.
    pub services_filter: u32,
    /// Least interval in which we update other peers.
    pub min_send_update_interval: u64,
}

/// What the discovery behaviour reports to the swarm's owner.
#[derive(Debug, PartialEq, Eq)]
pub enum DiscoveryEvent {
    /// The peer exchange with `peer_id` is established.
    Established { peer_id: PeerId },
    /// The peer contact book was updated.
    Update,
}

/// What the discovery behaviour tells a connection's handler.
#[derive(Debug, PartialEq, Eq)]
pub enum HandlerInEvent {
    /// The address at which the connection reaches the peer.
    ObservedAddress(Multiaddr),
}

/// What a connection's handler tells the discovery behaviour.
#[derive(Debug, PartialEq, Eq)]
pub enum HandlerOutEvent {
    /// The handshake is done; `peer_id` is the identity of the peer's contact.
    PeerExchangeEstablished { peer_id: PeerId },
    /// The peer told us at which addresses it sees us.
    ObservedAddresses { observed_addresses: Vec<Multiaddr> },
    /// The peer sent new contacts.
    Update,
}

/// What the discovery behaviour asks of the swarm.
#[derive(Debug, PartialEq, Eq)]
pub enum DiscoveryAction {
    /// Report `0` to the swarm's owner.
    GenerateEvent(DiscoveryEvent),
    /// Hand `event` to the handler of one connection.
    NotifyHandler { peer_id: PeerId, connection_id: ConnectionId, event: HandlerInEvent },
    /// Record that a peer sees us at `address`.
    ReportObservedAddr { address: Multiaddr },
}

/// One report for each address, in the order of the addresses.
pub open spec fn report_actions(addresses: Seq<Multiaddr>) -> Seq<DiscoveryAction> {
    Seq::new(
        addresses.len(),
        |i: int| DiscoveryAction::ReportObservedAddr { address: addresses[i] },
    )
}

/// The actions that an event from a handler puts on the queue.
pub open spec fn handler_event_actions(event: HandlerOutEvent) -> Seq<DiscoveryAction> {
    match event {
        HandlerOutEvent::PeerExchangeEstablished { peer_id } => seq![
            DiscoveryAction::GenerateEvent(DiscoveryEvent::Established { peer_id }),
        ],
        HandlerOutEvent::ObservedAddresses { observed_addresses } => report_actions(
            observed_addresses@,
        ),
        HandlerOutEvent::Update => seq![DiscoveryAction::GenerateEvent(DiscoveryEvent::Update)],
    }
}

/// The discovery behaviour.
pub struct Discovery {
    config: DiscoveryConfig,
    connected_peers: PeerSet,
    events: VecDeque<DiscoveryAction>,
}

impl Discovery {
    /// The configuration that the behaviour was made with.
    pub closed spec fn spec_config(&self) -> DiscoveryConfig {
        self.config
    }

    /// The identities of the connected peers.
    pub closed spec fn connected(&self) -> Set<Seq<u8>> {
        self.connected_peers@
    }

    /// The actions that wait for the swarm, oldest first.
    pub closed spec fn queue(&self) -> Seq<DiscoveryAction> {
        self.events@
    }

    /// The behaviour with no connected peer and nothing to do.
    pub fn new(config: DiscoveryConfig) -> (behaviour: Discovery)
        ensures
            behaviour.spec_config() == config,
            behaviour.connected() == Set::<Seq<u8>>::empty(),
            behaviour.queue() == Seq::<DiscoveryAction>::empty(),
    {
        Discovery { config, connected_peers: PeerSet::new(), events: VecDeque::new() }
    }

    /// The configuration, for a new connection's handler.
    pub fn config(&self) -> (config: DiscoveryConfig)
        ensures
            config == self.spec_config(),
    {
        self.config
    }

    /// Whether `peer_id` is connected.
    pub fn is_connected(&self, peer_id: &PeerId) -> (connected: bool)
        ensures
            connected == self.connected().contains(peer_id@),
    {
        self.connected_peers.contains(peer_id)
    }

    /// A peer connected.
    pub fn inject_connected(&mut self, peer_id: &PeerId)
        ensures
            final(self).connected() == old(self).connected().insert(peer_id@),
            final(self).queue() == old(self).queue(),
            final(self).spec_config() == old(self).spec_config(),
    {
        self.connected_peers.insert(peer_id.clone());
    }

    /// A peer disconnected.
    pub fn inject_disconnected(&mut self, peer_id: &PeerId)
        ensures
            final(self).connected() == old(self).connected().remove(peer_id@),
            final(self).queue() == old(self).queue(),
            final(self).spec_config() == old(self).spec_config(),
    {
        self.connected_peers.remove(peer_id);
    }

    /// A connection was established: its handler is told the address at
    /// which the connection reaches the peer.
    pub fn inject_connection_established(
        &mut self,
        peer_id: &PeerId,
        connection_id: &ConnectionId,
        connected_point: &ConnectedPoint,
    )
        ensures
            final(self).connected() == old(self).connected(),
            final(self).spec_config() == old(self).spec_config(),
            final(self).queue().len() == old(self).queue().len() + 1,
            final(self).queue().drop_last() == old(self).queue(),
            match final(self).queue().last() {
                DiscoveryAction::NotifyHandler {
                    peer_id: to,
                    connection_id: on,
                    event: HandlerInEvent::ObservedAddress(address),
                } => to@ == peer_id@ && on == *connection_id && address@
                    == connected_point.spec_reported_address(),
                _ => false,
            },
    {
        let action = DiscoveryAction::NotifyHandler {
            peer_id: peer_id.clone(),
            connection_id: *connection_id,
            event: HandlerInEvent::ObservedAddress(connected_point.reported_address()),
        };
        self.events.push_back(action);
        assert(self.events@.drop_last() =~= old(self).events@);
    }

    /// A handler reported `event`: the actions it stands for are queued.
    pub fn inject_event(
        &mut self,
        peer_id: PeerId,
        connection: ConnectionId,
        event: HandlerOutEvent,
    )
        ensures
            final(self).connected() == old(self).connected(),
            final(self).spec_config() == old(self).spec_config(),
            final(self).queue() == old(self).queue() + handler_event_actions(event),
    {
        match event {
            HandlerOutEvent::PeerExchangeEstablished { peer_id: contact } => {
                self.events.push_back(
                    DiscoveryAction::GenerateEvent(DiscoveryEvent::Established { peer_id: contact }),
                );
                assert(self.events@ =~= old(self).events@ + handler_event_actions(event));
            },
            HandlerOutEvent::ObservedAddresses { observed_addresses } => {
                let mut rest = observed_addresses;
                let ghost all = rest@;
                let ghost mut done: int = 0;
                while rest.len() > 0
                    invariant
                        0 <= done <= all.len(),
                        rest@ == all.subrange(done, all.len() as int),
                        self.events@ == old(self).events@ + report_actions(all.subrange(0, done)),
                        self.connected_peers == old(self).connected_peers,
                        self.config == old(self).config,
                    decreases rest.len(),
                {
                    let address = rest.remove(0);
                    self.events.push_back(DiscoveryAction::ReportObservedAddr { address });
                    proof {
                        assert(address == all[done]);
                        assert(self.events@ =~= old(self).events@ + report_actions(
                            all.subrange(0, done + 1),
                        ));
                        assert(rest@ =~= all.subrange(done + 1, all.len() as int));
                        done = done + 1;
                    }
                }
                assert(all.subrange(0, done) =~= all);
            },
            HandlerOutEvent::Update => {
                self.events.push_back(DiscoveryAction::GenerateEvent(DiscoveryEvent::Update));
                assert(self.events@ =~= old(self).events@ + handler_event_actions(event));
            },
        }
    }

    /// The oldest action that waits, if there is one.
    pub fn poll(&mut self) -> (action: Option<DiscoveryAction>)
        ensures
            final(self).connected() == old(self).connected(),
            final(self).spec_config() == old(self).spec_config(),
            match action {
                Some(a) => old(self).queue().len() > 0 && a == old(self).queue()[0]
                    && final(self).queue() == old(self).queue().skip(1),
                None => old(self).queue().len() == 0 && final(self).queue() == old(self).queue(),
            },
    {
        let action = self.events.pop_front();
        proof {
            if action.is_some() {
                assert(self.events@ =~= old(self).events@.skip(1));
            }
        }
        action
    }
}

} // verus!
