//! The connection handler of the limit protocol: it collects the peers that
//! are to be closed and keeps reporting them.
use vstd::prelude::*;
use crate::peers::PeerId;

verus! {

/// What the limit behaviour tells a connection's handler.
#[derive(Debug, PartialEq, Eq)]
pub enum HandlerInEvent {
    ClosePeer { peer_id: PeerId },
}

/// What a connection's handler tells the limit behaviour.
#[derive(Debug, PartialEq, Eq)]
pub enum HandlerOutEvent {
    ClosePeers { peers: Vec<PeerId> },
}

/// The errors of the handler. There are none: the one variant holds a value
/// of a type that has no values.
#[derive(Debug, PartialEq, Eq)]
pub enum HandlerError {
    Never(core::convert::Infallible),
}

/// The connection handler of the limit protocol.
pub struct LimitHandler {
    /// Peers we have to close.
    close_peers: Vec<PeerId>,
}

/// The identities of a list of peers, in the list's order.
pub open spec fn identity_list(peers: Seq<PeerId>) -> Seq<Seq<u8>> {
    Seq::new(peers.len(), |i: int| peers[i]@)
}

impl LimitHandler {
    /// The identities of the peers to close, in the order in which they came.
    pub closed spec fn to_close(&self) -> Seq<Seq<u8>> {
        identity_list(self.close_peers@)
    }

    /// The handler with no peer to close.
    pub fn new() -> (handler: LimitHandler)
        ensures
            handler.to_close() == Seq::<Seq<u8>>::empty(),
    {
        let handler = LimitHandler { close_peers: Vec::new() };
        assert(handler.to_close() =~= Seq::<Seq<u8>>::empty());
        handler
    }

    /// The behaviour asks for a peer to be closed.
    pub fn inject_event(&mut self, event: HandlerInEvent)
        ensures
            match event {
                HandlerInEvent::ClosePeer { peer_id } => final(self).to_close() == old(
                    self,
                ).to_close().push(peer_id@),
            },
    {
        match event {
            HandlerInEvent::ClosePeer { peer_id } => {
                self.close_peers.push(peer_id);
                assert(self.to_close() =~= old(self).to_close().push(peer_id@));
            },
        }
    }

    /// The connection is kept alive for as long as the handler lives.
    pub fn connection_keep_alive(&self) -> (keep: bool)
        ensures
            keep,
    {
        true
    }

    /// The peers to close, if there are any. The list stays as it is, so the
    /// same peers are reported at every call.
    pub fn poll(&self) -> (event: Option<HandlerOutEvent>)
        ensures
            match event {
                Some(HandlerOutEvent::ClosePeers { peers }) => self.to_close().len() > 0
                    && identity_list(peers@) == self.to_close(),
                None => self.to_close().len() == 0,
            },
    {
        if self.close_peers.len() > 0 {
            let mut peers: Vec<PeerId> = Vec::new();
            let mut i: usize = 0;
            while i < self.close_peers.len()
                invariant
                    i <= self.close_peers.len(),
                    peers.len() == i,
                    forall|j: int| 0 <= j < i ==> peers[j]@ == self.close_peers[j]@,
                decreases self.close_peers.len() - i,
            {
                peers.push(self.close_peers[i].clone());
                i = i + 1;
            }
            assert(identity_list(peers@) =~= identity_list(self.close_peers@));
            Some(HandlerOutEvent::ClosePeers { peers })
        } else {
            None
        }
    }
}

} // verus!
