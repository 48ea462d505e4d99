//! The peers that may connect, by public key.

use crate::net::Ipv4Addr;
use vstd::prelude::*;

verus! {

/// A configured peer.
#[derive(Debug, Clone, Copy)]
pub struct PeerMeta {
    pub public_key: [u8; 32],
    pub tunnel_ip: Ipv4Addr,
}

/// The tunnel address of the latest entry for `key`.
pub open spec fn latest(entries: Seq<PeerMeta>, key: Seq<u8>) -> Option<Ipv4Addr>
    decreases entries.len(),
{
    if entries.len() == 0 {
        None
    } else if entries.last().public_key@ == key {
        Some(entries.last().tunnel_ip)
    } else {
        latest(entries.drop_last(), key)
    }
}

/// A map from public keys to tunnel addresses.
#[derive(Debug)]
pub struct PeerTable {
    entries: Vec<PeerMeta>,
}

impl View for PeerTable {
    type V = Map<Seq<u8>, Ipv4Addr>;

    closed spec fn view(&self) -> Map<Seq<u8>, Ipv4Addr> {
        Map::new(
            |key: Seq<u8>| latest(self.entries@, key) is Some,
            |key: Seq<u8>| latest(self.entries@, key)->0,
        )
    }
}

/// Tells whether two keys are the same.
fn same_key(a: &[u8; 32], b: &[u8; 32]) -> (r: bool)
    ensures
        r == (a@ == b@),
{
    let mut i: usize = 0;
    while i < 32
        invariant
            i <= 32,
            forall|j: int| 0 <= j < i ==> a@[j] == b@[j],
        decreases 32 - i,
    {
        if a[i] != b[i] {
            return false;
        }
        i += 1;
    }
    assert(a@ =~= b@);
    true
}

impl PeerTable {
    /// A table without peers.
    pub fn new() -> (r: Self)
        ensures
            r@ == Map::<Seq<u8>, Ipv4Addr>::empty(),
    {
        let r = PeerTable { entries: Vec::new() };
        assert(r@ =~= Map::empty());
        r
    }

    /// Assigns a tunnel address to a key, in place of any before it.
    pub fn insert(&mut self, public_key: [u8; 32], tunnel_ip: Ipv4Addr)
        ensures
            final(self)@ == old(self)@.insert(public_key@, tunnel_ip),
    {
        let ghost before = self.entries@;
        self.entries.push(PeerMeta { public_key, tunnel_ip });
        assert(self.entries@.drop_last() =~= before);
        assert(self@ =~= old(self)@.insert(public_key@, tunnel_ip));
    }

    /// The tunnel address of a key.
    pub fn get(&self, public_key: &[u8; 32]) -> (r: Option<Ipv4Addr>)
        ensures
            r == if self@.contains_key(public_key@) {
                Some(self@[public_key@])
            } else {
                None
            },
    {
        let mut i: usize = self.entries.len();
        assert(self.entries@.take(i as int) =~= self.entries@);
        while i > 0
            invariant
                i <= self.entries@.len(),
                latest(self.entries@.take(i as int), public_key@) == latest(
                    self.entries@,
                    public_key@,
                ),
            decreases i,
        {
            assert(self.entries@.take(i as int).drop_last() =~= self.entries@.take(i - 1));
            i -= 1;
            if same_key(&self.entries[i].public_key, public_key) {
                return Some(self.entries[i].tunnel_ip);
            }
        }
        None
    }
}

} // verus!
