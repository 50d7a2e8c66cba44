//! The shared network and key context a counter is bound to.
//!
//! The counter reads five things from its environment: the local node's id,
//! the number of nodes, the tolerated number `f` of faulty nodes, the local
//! signing key, and each node's verification key.  All five are fixed for
//! the lifetime of a [`NetworkInfo`]; the fault threshold is supplied by the
//! surrounding protocol and taken as given, not derived here.

use vstd::prelude::*;
use crate::assoc::{assoc_lookup, keys_sorted, view_pairs, assoc_index};
use crate::vote::clone_bytes;

verus! {

/// Immutable network data shared by every counter of a node: identities,
/// the fault threshold, and key material.
#[derive(Debug)]
pub struct NetworkInfo {
    our_id: u64,
    num_nodes: usize,
    num_faulty: usize,
    secret_key: Vec<u8>,
    public_keys: Vec<(u64, Vec<u8>)>,
}

impl NetworkInfo {
    /// The local node's id.
    pub closed spec fn spec_our_id(&self) -> u64 {
        self.our_id
    }

    /// The number of nodes in the network.
    pub closed spec fn spec_num_nodes(&self) -> usize {
        self.num_nodes
    }

    /// The maximum number of faulty nodes the network tolerates.
    pub closed spec fn spec_num_faulty(&self) -> usize {
        self.num_faulty
    }

    /// The local node's 32-byte signing key.
    pub closed spec fn spec_secret_key(&self) -> Seq<u8> {
        self.secret_key@
    }

    /// The known verification keys, as a key-sorted association list from
    /// node id to public-key bytes.
    pub closed spec fn keyset(&self) -> Seq<(u64, Seq<u8>)> {
        view_pairs(self.public_keys@)
    }

    /// Well-formedness: the key list is sorted by node id and the signing
    /// key has the 32 bytes an ed25519 seed must have.
    pub closed spec fn wf(&self) -> bool {
        keys_sorted(self.keyset()) && self.secret_key@.len() == 32
    }

    /// Builds the context.  `public_keys` maps each node id to that node's
    /// verification-key bytes and must be sorted by id; `secret_key` is the
    /// local node's 32-byte signing key.
    pub fn new(
        our_id: u64,
        num_nodes: usize,
        num_faulty: usize,
        secret_key: Vec<u8>,
        public_keys: Vec<(u64, Vec<u8>)>,
    ) -> (r: Self)
        requires
            secret_key@.len() == 32,
            keys_sorted(view_pairs(public_keys@)),
        ensures
            r.wf(),
            r.spec_our_id() == our_id,
            r.spec_num_nodes() == num_nodes,
            r.spec_num_faulty() == num_faulty,
            r.spec_secret_key() == secret_key@,
            r.keyset() == view_pairs(public_keys@),
    {
        NetworkInfo { our_id, num_nodes, num_faulty, secret_key, public_keys }
    }

    /// The local node's id.
    pub fn our_id(&self) -> (r: u64)
        ensures
            r == self.spec_our_id(),
    {
        self.our_id
    }

    /// The number of nodes in the network.
    pub fn num_nodes(&self) -> (r: usize)
        ensures
            r == self.spec_num_nodes(),
    {
        self.num_nodes
    }

    /// The maximum number of faulty nodes the network tolerates.
    pub fn num_faulty(&self) -> (r: usize)
        ensures
            r == self.spec_num_faulty(),
    {
        self.num_faulty
    }

    pub(crate) fn secret_key(&self) -> (r: &Vec<u8>)
        ensures
            r@ == self.spec_secret_key(),
            self.wf() ==> r@.len() == 32,
    {
        &self.secret_key
    }

    /// The verification key of `node_id`, if that node is known in this
    /// era's configuration.
    pub fn public_key(&self, node_id: u64) -> (r: Option<Vec<u8>>)
        ensures
            match r {
                Some(pk) => assoc_lookup(self.keyset(), node_id) == Some(pk@),
                None => assoc_lookup(self.keyset(), node_id) is None,
            },
    {
        match assoc_index(&self.public_keys, node_id) {
            Some(i) => Some(clone_bytes(&self.public_keys[i].1)),
            None => None,
        }
    }
}

} // verus!
