//! Account addresses.
use crate::text::same_bytes;
use vstd::prelude::*;

verus! {

/// The address of an account: a public key or a derived address.
#[derive(Clone, Copy, Debug)]
pub struct Address {
    /// The 32 bytes of the address.
    pub bytes: [u8; 32],
}

impl View for Address {
    type V = Seq<u8>;

    open spec fn view(&self) -> Seq<u8> {
        self.bytes@
    }
}

impl PartialEq for Address {
    fn eq(&self, other: &Self) -> (r: bool) {
        let r = same_bytes(&self.bytes, &other.bytes);
        proof {
            address_is_its_bytes(*self, *other);
        }
        r
    }
}

impl vstd::std_specs::cmp::PartialEqSpecImpl for Address {
    open spec fn obeys_eq_spec() -> bool {
        true
    }

    open spec fn eq_spec(&self, other: &Self) -> bool {
        *self == *other
    }
}

/// Two addresses with the same bytes are the same address.
pub proof fn address_is_its_bytes(a: Address, b: Address)
    ensures
        a@ == b@ <==> a == b,
{
    if a@ == b@ {
        assert forall|i: int| 0 <= i < 32 implies a.bytes[i] == b.bytes[i] by {
            assert(a@[i] == b@[i]);
        }
        assert(a.bytes =~= b.bytes);
    }
}

impl Address {
    /// The address that consists of these bytes.
    pub fn new_from_array(bytes: [u8; 32]) -> (r: Address)
        ensures
            r@ == bytes@,
            r.bytes == bytes,
    {
        Address { bytes }
    }

    /// The address in the first 32 bytes of a slice.
    pub fn from_prefix(bytes: &[u8]) -> (r: Address)
        requires
            bytes@.len() >= 32,
        ensures
            r@ == bytes@.take(32),
    {
        let mut array: [u8; 32] = [0u8; 32];
        let mut i: usize = 0;
        while i < 32
            invariant
                i <= 32,
                bytes@.len() >= 32,
                array@.len() == 32,
                forall|j: int| 0 <= j < i ==> array@[j] == bytes@[j],
            decreases 32 - i,
        {
            array[i] = bytes[i];
            i = i + 1;
        }
        assert(array@ =~= bytes@.take(32));
        Address { bytes: array }
    }

    /// The bytes of the address in a vector.
    pub fn to_vec(&self) -> (r: Vec<u8>)
        ensures
            r@ == self@,
    {
        let r = crate::text::copy_range(&self.bytes, 0, 32);
        assert(r@ =~= self@);
        r
    }
}

} // verus!
