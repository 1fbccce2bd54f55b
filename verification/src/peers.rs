//! The peer directory: the nodes a client may connect through.

use vstd::prelude::*;
use vstd::string::StringExecFns;
use crate::resolve::Address;

verus! {

/// A node of the network: where it is reached, and the region it is in.
#[derive(Clone, Debug, PartialEq, Eq)]
pub struct Peer {
    pub address: Address,
    pub region: String,
}

/// The peers of a list that are in a region, in the order of the list.
pub open spec fn peers_in(peers: Seq<Peer>, region: Seq<char>) -> Seq<Peer> {
    peers.filter(|peer: Peer| peer.region@ == region)
}

/// The peers that are known. For now there is one, on this machine.
pub fn peers() -> (list: Vec<Peer>)
    ensures
        list@.len() == 1,
        list@[0].address == Address::V4(127, 0, 0, 1),
        list@[0].region@ == "India"@,
{
    let mut list = Vec::new();
    list.push(Peer { address: Address::V4(127, 0, 0, 1), region: String::from_str("India") });
    list
}

/// Keeps the peers that are in the region, in their order.
pub fn in_region(peers: Vec<Peer>, region: &String) -> (kept: Vec<Peer>)
    ensures
        kept@ == peers_in(peers@, region@),
{
    let mut kept: Vec<Peer> = Vec::new();
    let ghost all = peers@;
    for peer in it: peers
        invariant
            it.seq() == all,
            kept@ == peers_in(all.take(it.index() as int), region@),
    {
        proof {
            let next = all.take(it.index() + 1);
            assert(next.drop_last() =~= all.take(it.index() as int));
            assert(next.last() == peer);
            reveal_with_fuel(Seq::filter, 2);
        }
        if peer.region == *region {
            kept.push(peer);
        }
    }
    assert(all.take(all.len() as int) =~= all);
    kept
}

} // verus!
