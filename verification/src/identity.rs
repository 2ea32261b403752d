//! The address of an account or of a signer.
use vstd::prelude::*;
use vstd::std_specs::cmp::PartialEqSpecImpl;

verus! {

/// The number of bytes in an address.
pub const IDENTITY_LEN: usize = 32;

/// A fixed-size public address. It names an account and authenticates a signer.
#[derive(Clone, Copy, Debug, Eq, Hash)]
pub struct Identity {
    pub bytes: [u8; 32],
}

impl View for Identity {
    type V = Seq<u8>;

    open spec fn view(&self) -> Seq<u8> {
        self.bytes@
    }
}

impl Identity {
    /// The address made of the given bytes.
    pub fn new(bytes: [u8; 32]) -> (id: Identity)
        ensures
            id.bytes == bytes,
            id@ == bytes@,
    {
        Identity { bytes }
    }

    /// The address stored in the 32 bytes of `bytes` that start at `at`.
    pub(crate) fn read_from(bytes: &[u8], at: usize) -> (id: Identity)
        requires
            at + IDENTITY_LEN <= bytes@.len(),
        ensures
            id@ == bytes@.subrange(at as int, at + IDENTITY_LEN),
    {
        let len = bytes.len();
        let mut raw = [0u8; 32];
        let mut i: usize = 0;
        while i < 32
            invariant
                i <= 32,
                at + 32 <= len,
                len == bytes@.len(),
                forall|j: int| 0 <= j < i ==> raw[j] == bytes@[at + j],
            decreases 32 - i,
        {
            raw[i] = bytes[at + i];
            i += 1;
        }
        Identity { bytes: raw }
    }

    /// Puts the 32 bytes of the address at the end of `out`.
    pub(crate) fn write_to(&self, out: &mut Vec<u8>)
        ensures
            final(out)@ == old(out)@ + self@,
    {
        let ghost before = out@;
        let mut i: usize = 0;
        while i < 32
            invariant
                i <= 32,
                out@ == before + self@.take(i as int),
            decreases 32 - i,
        {
            out.push(self.bytes[i]);
            i += 1;
        }
    }

    /// Two addresses with the same bytes are the same address.
    pub proof fn lemma_view_injective(a: Identity, b: Identity)
        ensures
            a@.len() == IDENTITY_LEN,
            (a@ == b@) <==> (a == b),
    {
        if a@ == b@ {
            assert(a.bytes =~= b.bytes);
        }
    }
}

impl PartialEq for Identity {
    fn eq(&self, other: &Identity) -> (same: bool) {
        let mut i: usize = 0;
        while i < 32
            invariant
                i <= 32,
                forall|j: int| 0 <= j < i ==> self.bytes[j] == other.bytes[j],
            decreases 32 - i,
        {
            if self.bytes[i] != other.bytes[i] {
                return false;
            }
            i += 1;
        }
        assert(self.bytes =~= other.bytes);
        true
    }
}

impl PartialEqSpecImpl for Identity {
    open spec fn obeys_eq_spec() -> bool {
        true
    }

    open spec fn eq_spec(&self, other: &Identity) -> bool {
        *self == *other
    }
}

} // verus!
