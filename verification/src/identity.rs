use vstd::prelude::*;

verus! {

/// The 32-byte identity of an account, an asset or a program.
#[derive(Clone, Copy, Debug, Eq)]
pub struct Identity {
    pub bytes: [u8; 32],
}

impl View for Identity {
    type V = Seq<u8>;

    open spec fn view(&self) -> Seq<u8> {
        self.bytes@
    }
}

impl Identity {
    /// Two identities with the same bytes are the same identity.
    pub proof fn lemma_view_injective(a: Identity, b: Identity)
        ensures
            a@.len() == 32,
            (a@ == b@) <==> (a == b),
    {
        if a@ == b@ {
            assert(a.bytes =~= b.bytes);
        }
    }

    pub fn new(bytes: [u8; 32]) -> (r: Identity)
        ensures
            r.bytes == bytes,
    {
        Identity { bytes }
    }

    /// Reads the identity that stands in the 32 bytes of `data` from `offset`
    /// on. `None` where `data` ends before the last of them.
    pub fn read(data: &[u8], offset: usize) -> (r: Option<Identity>)
        ensures
            r is Some <==> offset + 32 <= data@.len(),
            r matches Some(id) ==> id.bytes@ == data@.subrange(offset as int, offset + 32),
    {
        if data.len() < 32 || offset > data.len() - 32 {
            return None;
        }
        let mut bytes = [0u8; 32];
        let mut i: usize = 0;
        while i < 32
            invariant
                i <= 32,
                offset + 32 <= data.len(),
                forall|k: int| 0 <= k < i ==> bytes@[k] == data@[offset + k],
            decreases 32 - i,
        {
            bytes[i] = data[offset + i];
            i += 1;
        }
        assert(bytes@ =~= data@.subrange(offset as int, offset + 32));
        Some(Identity { bytes })
    }

    /// Appends the 32 bytes of the identity to `out`.
    pub fn write(&self, out: &mut Vec<u8>)
        ensures
            final(out)@ == old(out)@ + self.bytes@,
    {
        let mut i: usize = 0;
        while i < 32
            invariant
                i <= 32,
                out@ == old(out)@ + self.bytes@.take(i as int),
            decreases 32 - i,
        {
            out.push(self.bytes[i]);
            i += 1;
            assert(out@ =~= old(out)@ + self.bytes@.take(i as int));
        }
        assert(self.bytes@.take(32) =~= self.bytes@);
    }

    /// Whether `self` and `other` name the same thing.
    pub fn same(&self, other: &Identity) -> (r: bool)
        ensures
            r == (*self == *other),
    {
        let mut i: usize = 0;
        while i < 32
            invariant
                i <= 32,
                forall|k: int| 0 <= k < i ==> self.bytes[k] == other.bytes[k],
            decreases 32 - i,
        {
            if self.bytes[i] != other.bytes[i] {
                return false;
            }
            i += 1;
        }
        proof {
            assert(self.bytes =~= other.bytes);
        }
        true
    }
}

impl PartialEq for Identity {
    fn eq(&self, other: &Identity) -> (r: bool) {
        self.same(other)
    }
}

impl vstd::std_specs::cmp::PartialEqSpecImpl for Identity {
    open spec fn obeys_eq_spec() -> bool {
        true
    }

    open spec fn eq_spec(&self, other: &Identity) -> bool {
        *self == *other
    }
}

} // verus!
