//! Who owns a tile or a player record.

use vstd::prelude::*;

verus! {

/// A 32-byte value that names a player. The library never looks inside it:
/// it only compares two of them, and knows the all-zero one as "nobody".
#[derive(Clone, Copy, Debug, PartialEq, Eq, Hash)]
pub struct Identity {
    pub bytes: [u8; 32],
}

impl Identity {
    /// The identity that names nobody: 32 zero bytes.
    pub open spec fn null() -> Identity {
        Identity { bytes: vstd::array::spec_array_fill_for_copy_type::<u8, 32>(0u8) }
    }

    /// Whether this is the identity that names nobody.
    pub open spec fn is_null(&self) -> bool {
        forall|k: int| 0 <= k < 32 ==> self.bytes[k] == 0u8
    }

    /// Two identities are the same value exactly when all their bytes agree.
    pub proof fn lemma_equal_by_bytes(a: Identity, b: Identity)
        ensures
            (a == b) <==> (forall|k: int| 0 <= k < 32 ==> a.bytes[k] == b.bytes[k]),
    {
        if forall|k: int| 0 <= k < 32 ==> a.bytes[k] == b.bytes[k] {
            assert(a.bytes =~= b.bytes);
        }
    }

    /// The null identity is the only one whose bytes are all zero.
    pub proof fn lemma_null_is_zero(a: Identity)
        ensures
            a.is_null() <==> a == Identity::null(),
    {
        Self::lemma_equal_by_bytes(a, Identity::null());
    }

    /// Builds the identity that names nobody.
    pub fn default() -> (r: Identity)
        ensures
            r == Identity::null(),
    {
        Identity { bytes: [0u8; 32] }
    }

    /// Builds an identity from its 32 bytes.
    pub fn new_from_array(bytes: [u8; 32]) -> (r: Identity)
        ensures
            r.bytes == bytes,
    {
        Identity { bytes }
    }

    /// Compares two identities byte by byte.
    pub fn same(&self, other: &Identity) -> (r: bool)
        ensures
            r == (*self == *other),
    {
        let mut i: usize = 0;
        while i < 32
            invariant
                i <= 32,
                forall|k: int| 0 <= k < i ==> self.bytes[k] == other.bytes[k],
            decreases 32 - i,
        {
            if self.bytes[i] != other.bytes[i] {
                return false;
            }
            i = i + 1;
        }
        assert(self.bytes =~= other.bytes);
        true
    }
}

} // verus!
