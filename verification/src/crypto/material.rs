//! Key and signature material. The replica core never looks inside it:
//! it carries the bytes from the message that brought them to whoever
//! checks them, and is told the outcome.

use crate::crypto::Identity;
use crate::data::shared::share;
use std::sync::Arc;
use vstd::prelude::*;

verus! {

/// A signature by one key over one statement.
pub struct Signature {
    bytes: Arc<Vec<u8>>,
}

impl Clone for Signature {
    fn clone(&self) -> (copy: Self)
        ensures
            copy == *self,
    {
        Signature { bytes: share(&self.bytes) }
    }
}

impl View for Signature {
    type V = Seq<u8>;

    closed spec fn view(&self) -> Seq<u8> {
        self.bytes@
    }
}

impl Signature {
    pub fn new(bytes: Vec<u8>) -> (signature: Signature)
        ensures
            signature@ == bytes@,
    {
        Signature { bytes: Arc::new(bytes) }
    }

    pub fn bytes(&self) -> (bytes: &Vec<u8>)
        ensures
            bytes@ == self@,
    {
        &self.bytes
    }
}

/// A signature that can be aggregated with others over the same statement.
pub struct MultiSignature {
    bytes: Arc<Vec<u8>>,
}

impl Clone for MultiSignature {
    fn clone(&self) -> (copy: Self)
        ensures
            copy == *self,
    {
        MultiSignature { bytes: share(&self.bytes) }
    }
}

impl View for MultiSignature {
    type V = Seq<u8>;

    closed spec fn view(&self) -> Seq<u8> {
        self.bytes@
    }
}

impl MultiSignature {
    pub fn new(bytes: Vec<u8>) -> (signature: MultiSignature)
        ensures
            signature@ == bytes@,
    {
        MultiSignature { bytes: Arc::new(bytes) }
    }

    pub fn bytes(&self) -> (bytes: &Vec<u8>)
        ensures
            bytes@ == self@,
    {
        &self.bytes
    }
}

/// A proof that an item sits at some position under a Merkle root.
pub struct Proof {
    bytes: Arc<Vec<u8>>,
}

impl Clone for Proof {
    fn clone(&self) -> (copy: Self)
        ensures
            copy == *self,
    {
        Proof { bytes: share(&self.bytes) }
    }
}

impl View for Proof {
    type V = Seq<u8>;

    closed spec fn view(&self) -> Seq<u8> {
        self.bytes@
    }
}

impl Proof {
    pub fn new(bytes: Vec<u8>) -> (proof: Proof)
        ensures
            proof@ == bytes@,
    {
        Proof { bytes: Arc::new(bytes) }
    }

    pub fn bytes(&self) -> (bytes: &Vec<u8>)
        ensures
            bytes@ == self@,
    {
        &self.bytes
    }
}

/// The public keys of a replica or client, under the identity that names
/// them.
pub struct KeyCard {
    identity: Identity,
    keys: Arc<Vec<u8>>,
}

impl Clone for KeyCard {
    fn clone(&self) -> (copy: Self)
        ensures
            copy == *self,
    {
        KeyCard { identity: self.identity, keys: share(&self.keys) }
    }
}

impl KeyCard {
    pub closed spec fn spec_identity(&self) -> Identity {
        self.identity
    }

    pub closed spec fn keys(&self) -> Seq<u8> {
        self.keys@
    }

    pub fn new(identity: Identity, keys: Vec<u8>) -> (keycard: KeyCard)
        ensures
            keycard.spec_identity() == identity,
            keycard.keys() == keys@,
    {
        KeyCard { identity, keys: Arc::new(keys) }
    }

    pub fn identity(&self) -> (identity: Identity)
        ensures
            identity == self.spec_identity(),
    {
        self.identity
    }

    pub fn key_bytes(&self) -> (bytes: &Vec<u8>)
        ensures
            bytes@ == self.keys(),
    {
        &self.keys
    }
}

} // verus!
