//! Peers and addresses as the behaviours see them: opaque byte strings that
//! are compared, stored and handed on.
use vstd::prelude::*;
use crate::codec::bytes_equal;

verus! {

/// The identity of a peer, in its binary form.
#[derive(Debug, PartialEq, Eq, Hash)]
pub struct PeerId {
    pub bytes: Vec<u8>,
}

/// A network address, in its binary form.
#[derive(Debug, PartialEq, Eq, Hash)]
pub struct Multiaddr {
    pub bytes: Vec<u8>,
}

/// The number of one connection to a peer.
#[derive(Clone, Copy, Debug, PartialEq, Eq, Hash)]
pub struct ConnectionId {
    pub id: usize,
}

/// The two ends of a connection, as seen from here.
#[derive(Debug, PartialEq, Eq)]
pub enum ConnectedPoint {
    /// We dialed the peer at `address`.
    Dialer { address: Multiaddr },
    /// The peer dialed us: it reached us at `local_addr` and answers at
    /// `send_back_addr`.
    Listener { local_addr: Multiaddr, send_back_addr: Multiaddr },
}

impl View for PeerId {
    type V = Seq<u8>;

    open spec fn view(&self) -> Seq<u8> {
        self.bytes@
    }
}

impl View for Multiaddr {
    type V = Seq<u8>;

    open spec fn view(&self) -> Seq<u8> {
        self.bytes@
    }
}

impl Clone for PeerId {
    fn clone(&self) -> (copy: Self)
        ensures
            copy@ == self@,
    {
        PeerId { bytes: self.bytes.clone() }
    }
}

impl Clone for Multiaddr {
    fn clone(&self) -> (copy: Self)
        ensures
            copy@ == self@,
    {
        Multiaddr { bytes: self.bytes.clone() }
    }
}

impl PeerId {
    /// Whether two identities are the same.
    pub fn same(&self, other: &PeerId) -> (r: bool)
        ensures
            r == (self@ == other@),
    {
        bytes_equal(self.bytes.as_slice(), other.bytes.as_slice())
    }
}

impl Multiaddr {
    /// Whether two addresses are the same.
    pub fn same(&self, other: &Multiaddr) -> (r: bool)
        ensures
            r == (self@ == other@),
    {
        bytes_equal(self.bytes.as_slice(), other.bytes.as_slice())
    }
}

impl ConnectedPoint {
    /// Whether we opened the connection.
    pub fn is_dialer(&self) -> (r: bool)
        ensures
            r == (*self is Dialer),
    {
        match self {
            ConnectedPoint::Dialer { .. } => true,
            ConnectedPoint::Listener { .. } => false,
        }
    }

    /// The address of the connection that the behaviours report: the address
    /// we dialed, or the local address at which the peer reached us.
    pub open spec fn spec_reported_address(&self) -> Seq<u8> {
        match self {
            ConnectedPoint::Dialer { address } => address@,
            ConnectedPoint::Listener { local_addr, .. } => local_addr@,
        }
    }

    /// The address of the connection that the behaviours report.
    pub fn reported_address(&self) -> (address: Multiaddr)
        ensures
            address@ == self.spec_reported_address(),
    {
        match self {
            ConnectedPoint::Dialer { address } => address.clone(),
            ConnectedPoint::Listener { local_addr, .. } => local_addr.clone(),
        }
    }
}

/// A set of peers.
pub struct PeerSet {
    peers: Vec<PeerId>,
}

/// The identities that occur in a list of peers.
pub open spec fn identities(peers: Seq<PeerId>) -> Set<Seq<u8>> {
    Set::new(|id: Seq<u8>| exists|i: int| 0 <= i < peers.len() && peers[i]@ == id)
}

/// Appending a peer to a list adds its identity to those that occur.
pub proof fn lemma_identities_push(peers: Seq<PeerId>, peer: PeerId)
    ensures
        identities(peers.push(peer)) == identities(peers).insert(peer@),
{
    let more = peers.push(peer);
    assert forall|id: Seq<u8>| identities(more).contains(id) <==> identities(peers).insert(
        peer@,
    ).contains(id) by {
        if identities(more).contains(id) {
            let k = choose|k: int| 0 <= k < more.len() && more[k]@ == id;
            if k < peers.len() {
                assert(peers[k]@ == id);
            }
        }
        if identities(peers).contains(id) {
            let k = choose|k: int| 0 <= k < peers.len() && peers[k]@ == id;
            assert(more[k]@ == id);
        }
        if id == peer@ {
            assert(more[peers.len() as int]@ == id);
        }
    }
    assert(identities(more) =~= identities(peers).insert(peer@));
}

impl View for PeerSet {
    type V = Set<Seq<u8>>;

    closed spec fn view(&self) -> Set<Seq<u8>> {
        identities(self.peers@)
    }
}

impl PeerSet {
    /// The set without any peer.
    pub fn new() -> (set: PeerSet)
        ensures
            set@ == Set::<Seq<u8>>::empty(),
    {
        let set = PeerSet { peers: Vec::new() };
        assert(set@ =~= Set::<Seq<u8>>::empty());
        set
    }

    /// Whether `peer` is in the set.
    pub fn contains(&self, peer: &PeerId) -> (found: bool)
        ensures
            found == self@.contains(peer@),
    {
        let mut i: usize = 0;
        while i < self.peers.len()
            invariant
                i <= self.peers.len(),
                forall|j: int| 0 <= j < i ==> self.peers[j]@ != peer@,
            decreases self.peers.len() - i,
        {
            if self.peers[i].same(peer) {
                return true;
            }
            i = i + 1;
        }
        false
    }

    /// Adds `peer`, and tells whether it was new.
    pub fn insert(&mut self, peer: PeerId) -> (added: bool)
        ensures
            final(self)@ == old(self)@.insert(peer@),
            added == !old(self)@.contains(peer@),
    {
        if self.contains(&peer) {
            assert(self@ =~= old(self)@.insert(peer@));
            return false;
        }
        proof {
            lemma_identities_push(self.peers@, peer);
        }
        self.peers.push(peer);
        true
    }

    /// Removes `peer`, and tells whether it was in the set.
    pub fn remove(&mut self, peer: &PeerId) -> (removed: bool)
        ensures
            final(self)@ == old(self)@.remove(peer@),
            removed == old(self)@.contains(peer@),
    {
        let mut kept: Vec<PeerId> = Vec::new();
        let mut removed = false;
        let mut i: usize = 0;
        assert(identities(kept@) =~= identities(self.peers@.subrange(0, 0)).remove(peer@));
        while i < self.peers.len()
            invariant
                i <= self.peers.len(),
                self.peers == old(self).peers,
                removed == identities(self.peers@.subrange(0, i as int)).contains(peer@),
                identities(kept@) == identities(self.peers@.subrange(0, i as int)).remove(peer@),
            decreases self.peers.len() - i,
        {
            let ghost seen = self.peers@.subrange(0, i as int);
            proof {
                lemma_identities_push(seen, self.peers[i as int]);
                assert(seen.push(self.peers[i as int]) =~= self.peers@.subrange(0, i + 1));
            }
            if self.peers[i].same(peer) {
                removed = true;
                assert(identities(kept@) =~= identities(self.peers@.subrange(0, i + 1)).remove(
                    peer@,
                ));
            } else {
                let copy = self.peers[i].clone();
                proof {
                    lemma_identities_push(kept@, copy);
                }
                kept.push(copy);
                assert(identities(kept@) =~= identities(self.peers@.subrange(0, i + 1)).remove(
                    peer@,
                ));
            }
            i = i + 1;
        }
        assert(self.peers@.subrange(0, i as int) =~= self.peers@);
        self.peers = kept;
        removed
    }
}

} // verus!
