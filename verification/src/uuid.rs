//! The UUID value itself: sixteen bytes.
use vstd::prelude::*;

verus! {

/// A universally unique identifier, held as its sixteen bytes in the order
/// in which they are written.
#[derive(Clone, Copy, Debug, PartialEq, Eq, Hash, PartialOrd, Ord)]
pub struct Uuid([u8; 16]);

impl View for Uuid {
    type V = Seq<u8>;

    /// The sixteen bytes of the UUID.
    closed spec fn view(&self) -> Seq<u8> {
        self.0@
    }
}

/// The UUID whose bytes are `b`.
pub closed spec fn spec_uuid(b: Seq<u8>) -> Uuid {
    choose|u: Uuid| u@ == b
}

/// A UUID is told by its bytes.
pub proof fn lemma_spec_uuid(u: Uuid)
    ensures
        spec_uuid(u@) == u,
{
    let c = spec_uuid(u@);
    assert(c@ == u@);
    vstd::array::axiom_array_ext_equal(c.0, u.0);
    assert(c.0 =~= u.0);
}

/// An array whose first `n` bytes are those of `b`.
spec fn array_with(b: Seq<u8>, n: nat) -> [u8; 16]
    decreases n,
{
    if n == 0 {
        vstd::array::spec_array_fill_for_copy_type::<u8, 16>(0u8)
    } else {
        vstd::array::spec_array_update(array_with(b, (n - 1) as nat), n - 1, b[n - 1])
    }
}

proof fn lemma_array_with(b: Seq<u8>, n: nat)
    requires
        n <= 16,
    ensures
        array_with(b, n)@.len() == 16,
        forall|i: int| 0 <= i < n ==> #[trigger] array_with(b, n)@[i] == b[i],
    decreases n,
{
    vstd::array::array_len_matches_n(&array_with(b, n));
    if n > 0 {
        lemma_array_with(b, (n - 1) as nat);
        vstd::array::axiom_spec_array_update(array_with(b, (n - 1) as nat), n - 1, b[n - 1]);
    }
}

/// Any sixteen bytes are the bytes of a UUID.
pub proof fn lemma_spec_uuid_view(b: Seq<u8>)
    requires
        b.len() == 16,
    ensures
        spec_uuid(b)@ == b,
{
    lemma_array_with(b, 16);
    let w = Uuid(array_with(b, 16));
    assert(w@ =~= b);
}

impl Uuid {
    /// Every UUID has sixteen bytes.
    pub proof fn lemma_len(&self)
        ensures
            self@.len() == 16,
    {
    }

    /// The UUID made of the given bytes.
    pub fn from_bytes(bytes: [u8; 16]) -> (u: Uuid)
        ensures
            u@ == bytes@,
    {
        Uuid(bytes)
    }

    /// The nil UUID, whose bytes are all zero.
    pub fn nil() -> (u: Uuid)
        ensures
            u@ == Seq::new(16, |i: int| 0u8),
    {
        let u = Uuid([0u8; 16]);
        assert(u@ =~= Seq::new(16, |i: int| 0u8));
        u
    }

    /// The bytes of the UUID.
    pub fn as_bytes(&self) -> (b: &[u8; 16])
        ensures
            b@ == self@,
    {
        &self.0
    }
}

} // verus!
