//! A parachain validation function: its code and the code's hash, which
//! identifies the compiled artifact.

use vstd::prelude::*;
use std::sync::Arc;
use vstd::bytes::{spec_u32_to_le_bytes, u32_to_le_bytes};
use crate::keys::{blake2_256, blake2_256_of};

verus! {

/// The identifier of a compiled PVF artifact: the hash of the PVF's code.
#[derive(Debug, Clone, Copy, PartialEq, Eq)]
pub struct ArtifactId {
    pub code_hash: [u8; 32],
}

/// A struct that carries code of a parachain validation function and it's
/// hash. Cheap to clone.
#[derive(Clone)]
pub struct Pvf {
    code: Arc<Vec<u8>>,
    code_hash: [u8; 32],
}

impl Pvf {
    /// The PVF's code.
    pub closed spec fn code(&self) -> Seq<u8> {
        (*self.code)@
    }

    /// The hash of the PVF's code.
    pub closed spec fn code_hash(&self) -> [u8; 32] {
        self.code_hash
    }

    /// Returns an instance of the PVF out of the given PVF code: the code and
    /// its BLAKE2-256 hash.
    pub fn from_code(code: Vec<u8>) -> (r: Self)
        ensures
            r.code() == code@,
            r.code_hash()@ == blake2_256_of(code@),
    {
        let code_hash = blake2_256(code.as_slice());
        Pvf { code: Arc::new(code), code_hash }
    }

    /// Creates a new pvf which artifact id can be uniquely identified by the
    /// given number: its code is the number's four little-endian bytes.
    pub fn from_discriminator(num: u32) -> (r: Self)
        ensures
            r.code() == spec_u32_to_le_bytes(num),
            r.code_hash()@ == blake2_256_of(spec_u32_to_le_bytes(num)),
    {
        Pvf::from_code(u32_to_le_bytes(num))
    }

    /// Returns the artifact ID that corresponds to this PVF.
    pub fn as_artifact_id(&self) -> (r: ArtifactId)
        ensures
            r.code_hash == self.code_hash(),
    {
        ArtifactId { code_hash: self.code_hash }
    }

    /// The PVF's code.
    pub fn code_bytes(&self) -> (r: &Vec<u8>)
        ensures
            r@ == self.code(),
    {
        &*self.code
    }
}

} // verus!
