//! The identity of an actor: an opaque token of 32 bytes that is only ever
//! compared for equality.

use vstd::prelude::*;
use vstd::std_specs::cmp::PartialEqSpecImpl;

verus! {

/// The identity of whoever invokes an operation.
#[derive(Clone, Copy, Debug)]
pub struct ActorId {
    pub bytes: [u8; 32],
}

impl View for ActorId {
    type V = Seq<u8>;

    open spec fn view(&self) -> Seq<u8> {
        self.bytes@
    }
}

impl ActorId {
    /// The identity made of the given bytes.
    pub fn new(bytes: [u8; 32]) -> (r: Self)
        ensures
            r@ == bytes@,
            r.bytes == bytes,
    {
        ActorId { bytes }
    }

    /// Thirty-two zero bytes.
    pub open spec fn zero_view() -> Seq<u8> {
        Seq::new(32, |i: int| 0u8)
    }

    /// The identity whose bytes are all zero.
    pub fn zero() -> (r: Self)
        ensures
            r@ == Self::zero_view(),
    {
        let r = ActorId { bytes: [0u8; 32] };
        assert(r@ =~= Self::zero_view());
        r
    }

    /// The bytes of the identity.
    pub fn into_bytes(self) -> (r: [u8; 32])
        ensures
            r@ == self@,
            r == self.bytes,
    {
        self.bytes
    }
}

impl PartialEq for ActorId {
    /// Two identities are equal when all their bytes are.
    fn eq(&self, other: &Self) -> (r: bool) {
        let mut i: usize = 0;
        while i < 32
            invariant
                i <= 32,
                forall|j: int| 0 <= j < i ==> self.bytes@[j] == other.bytes@[j],
            decreases 32 - i,
        {
            if self.bytes[i] != other.bytes[i] {
                return false;
            }
            i += 1;
        }
        assert(self.bytes@ =~= other.bytes@);
        true
    }
}

impl PartialEqSpecImpl for ActorId {
    open spec fn obeys_eq_spec() -> bool {
        true
    }

    open spec fn eq_spec(&self, other: &Self) -> bool {
        self@ == other@
    }
}

impl Eq for ActorId {

}

impl Default for ActorId {
    fn default() -> (r: Self)
        ensures
            r@ == Self::zero_view(),
    {
        ActorId::zero()
    }
}

/// Whether `who` occurs among `members`.
pub open spec fn is_member(members: Seq<Seq<u8>>, who: Seq<u8>) -> bool {
    members.contains(who)
}

/// The views of a list of identities, in order.
pub open spec fn actor_views(actors: Seq<ActorId>) -> Seq<Seq<u8>> {
    actors.map_values(|a: ActorId| a@)
}

/// Whether `who` occurs in `members`.
pub fn contains_actor(members: &Vec<ActorId>, who: &ActorId) -> (r: bool)
    ensures
        r == is_member(actor_views(members@), who@),
{
    let mut i: usize = 0;
    while i < members.len()
        invariant
            i <= members.len(),
            forall|j: int| 0 <= j < i ==> actor_views(members@)[j] != who@,
        decreases members.len() - i,
    {
        if members[i] == *who {
            assert(actor_views(members@)[i as int] == who@);
            return true;
        }
        i += 1;
    }
    false
}

/// A copy of a list of identities.
pub fn copy_actors(members: &Vec<ActorId>) -> (r: Vec<ActorId>)
    ensures
        r@ == members@,
{
    let mut out: Vec<ActorId> = Vec::new();
    let mut i: usize = 0;
    while i < members.len()
        invariant
            i <= members.len(),
            out@ == members@.subrange(0, i as int),
        decreases members.len() - i,
    {
        out.push(members[i]);
        assert(out@ =~= members@.subrange(0, i as int + 1));
        i += 1;
    }
    assert(members@.subrange(0, members.len() as int) =~= members@);
    out
}

} // verus!
