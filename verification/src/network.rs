//! Peer-set bookkeeping for the transport collaborator.
//!
//! The core requires nothing from the wire-level transport beyond
//! delivering payloads; what lives here is the set of connected peers, with
//! a capacity bound, and the operations the node drives it with. The peer
//! set holds each address at most once.

use vstd::prelude::*;

verus! {

use crate::errors::NetworkError;
use crate::utils::str_eq;

/// The peer set and its bounds.
pub struct P2PNetwork {
    port: u16,
    peers: Vec<String>,
    max_peers: usize,
}

impl P2PNetwork {
    /// The network port.
    pub closed spec fn port_view(&self) -> u16 {
        self.port
    }

    /// The connected peers, in connection order.
    pub closed spec fn peers_view(&self) -> Seq<Seq<char>> {
        self.peers.deep_view()
    }

    /// The maximum number of peers.
    pub closed spec fn max_peers_view(&self) -> usize {
        self.max_peers
    }

    /// Create a peer set for a port, with no peers and the default capacity
    /// of 50.
    pub fn new(port: u16) -> (r: Result<P2PNetwork, NetworkError>)
        ensures
            r is Ok,
            r->Ok_0.port_view() == port,
            r->Ok_0.peers_view() == Seq::<Seq<char>>::empty(),
            r->Ok_0.max_peers_view() == 50usize,
    {
        let r = P2PNetwork { port, peers: Vec::new(), max_peers: 50 };
        proof {
            assert(r.peers_view() =~= Seq::<Seq<char>>::empty());
        }
        Ok(r)
    }

    /// Start the network. Listening and peer discovery belong to the
    /// transport collaborator; the bookkeeping itself has nothing to start.
    pub fn start(&self) -> (r: Result<(), NetworkError>)
        ensures
            r is Ok,
    {
        Ok(())
    }

    fn position_of(&self, address: &str) -> (r: Option<usize>)
        ensures
            match r {
                Some(i) => i < self.peers_view().len() && self.peers_view()[i as int] == address@,
                None => !self.peers_view().contains(address@),
            },
    {
        let n = self.peers.len();
        let mut i: usize = 0;
        while i < n
            invariant
                i <= n,
                n == self.peers@.len(),
                forall|j: int| 0 <= j < i ==> self.peers_view()[j] != address@,
            decreases n - i,
        {
            proof {
                assert(self.peers_view()[i as int] == self.peers@[i as int]@);
            }
            if str_eq(self.peers[i].as_str(), address) {
                return Some(i);
            }
            i = i + 1;
        }
        proof {
            if self.peers_view().contains(address@) {
                let w = choose|j: int|
                    0 <= j < self.peers_view().len() && self.peers_view()[j] == address@;
                assert(self.peers_view()[w] != address@);
            }
        }
        None
    }

    /// Connect to a peer. Fails when the peer set is full; connecting to an
    /// already-connected peer changes nothing.
    pub fn connect(&mut self, address: &str) -> (r: Result<(), NetworkError>)
        ensures
            old(self).peers_view().len() >= old(self).max_peers_view() ==> r == Err::<
                (),
                NetworkError,
            >(NetworkError::CapacityExceeded) && final(self).peers_view() == old(self).peers_view(),
            old(self).peers_view().len() < old(self).max_peers_view() && old(
                self,
            ).peers_view().contains(address@) ==> r is Ok && final(self).peers_view() == old(
                self,
            ).peers_view(),
            old(self).peers_view().len() < old(self).max_peers_view() && !old(
                self,
            ).peers_view().contains(address@) ==> r is Ok && final(self).peers_view() == old(
                self,
            ).peers_view().push(address@),
            final(self).port_view() == old(self).port_view(),
            final(self).max_peers_view() == old(self).max_peers_view(),
    {
        if self.peers.len() >= self.max_peers {
            return Err(NetworkError::CapacityExceeded);
        }
        match self.position_of(address) {
            Some(_) => Ok(()),
            None => {
                self.peers.push(address.to_owned());
                proof {
                    assert(final(self).peers_view() =~= old(self).peers_view().push(address@));
                }
                Ok(())
            },
        }
    }

    /// Disconnect from a peer. Fails when the address is not connected.
    pub fn disconnect(&mut self, address: &str) -> (r: Result<(), NetworkError>)
        ensures
            !old(self).peers_view().contains(address@) ==> r == Err::<(), NetworkError>(
                NetworkError::PeerNotFound,
            ) && final(self).peers_view() == old(self).peers_view(),
            old(self).peers_view().contains(address@) ==> r is Ok && exists|i: int|
                {
                    &&& 0 <= i < old(self).peers_view().len()
                    &&& old(self).peers_view()[i] == address@
                    &&& final(self).peers_view() == old(self).peers_view().remove(i)
                },
            final(self).port_view() == old(self).port_view(),
            final(self).max_peers_view() == old(self).max_peers_view(),
    {
        match self.position_of(address) {
            Some(i) => {
                self.peers.remove(i);
                proof {
                    assert(final(self).peers_view() =~= old(self).peers_view().remove(i as int));
                }
                Ok(())
            },
            None => Err(NetworkError::PeerNotFound),
        }
    }

    /// Broadcast a message to all peers. Sending itself belongs to the
    /// transport collaborator; the bookkeeping accepts every broadcast.
    pub fn broadcast(&self, message: &[u8]) -> (r: Result<(), NetworkError>)
        ensures
            r is Ok,
    {
        let _ = message;
        Ok(())
    }

    /// Send a message to one peer. Fails when the address is not connected.
    pub fn send(&self, address: &str, message: &[u8]) -> (r: Result<(), NetworkError>)
        ensures
            r is Ok <==> self.peers_view().contains(address@),
            !self.peers_view().contains(address@) ==> r == Err::<(), NetworkError>(
                NetworkError::PeerNotFound,
            ),
    {
        let _ = message;
        match self.position_of(address) {
            Some(_) => Ok(()),
            None => Err(NetworkError::PeerNotFound),
        }
    }

    /// The connected peers, in connection order.
    pub fn get_peers(&self) -> (r: Vec<String>)
        ensures
            r.deep_view() == self.peers_view(),
    {
        let r = self.peers.clone();
        proof {
            assert forall|i: int| 0 <= i < self.peers@.len() implies r@[i]@ == self.peers@[i]@ by {
                assert(cloned::<String>(self.peers@[i], r@[i]));
            }
            assert(r.deep_view() =~= self.peers.deep_view());
        }
        r
    }
}

} // verus!
