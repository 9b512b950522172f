use vstd::prelude::*;

verus! {

/// Opaque handle standing for the identity of one record: a slot index and
/// a generation counter. Two identifiers are equal iff both parts match.
/// Migration code copies identifiers verbatim and never mints new ones;
/// fresh identifiers come only from the external allocator.
#[derive(Clone, Copy, PartialEq, Eq, Structural, PartialOrd, Ord, Hash, Debug)]
pub struct Identifier {
    pub index: u32,
    pub generation: u32,
}

/// A well-formed identifier has a live generation counter. The external
/// allocator starts generations at one, which keeps the packed wire value
/// nonzero and distinguishable from "no identifier".
pub open spec fn id_wf(id: Identifier) -> bool {
    id.generation >= 1
}

impl Identifier {
    /// The packed wire representation: generation in the high 32 bits,
    /// index in the low 32 bits.
    pub open spec fn bits(self) -> int {
        (self.generation as int) * 0x1_0000_0000 + (self.index as int)
    }

    /// Packs both parts into the single integer carried by the envelope.
    pub fn to_bits(self) -> (r: u64)
        ensures
            r == self.bits(),
    {
        (self.generation as u64) * 0x1_0000_0000u64 + (self.index as u64)
    }

    /// Recovers an identifier from its packed wire value. A value whose
    /// generation half is zero is not a well-formed identifier and is
    /// rejected.
    pub fn from_bits(b: u64) -> (r: Option<Identifier>)
        ensures
            match r {
                Some(id) => id_wf(id) && id.bits() == b,
                None => b < 0x1_0000_0000,
            },
    {
        let generation: u32 = (b / 0x1_0000_0000u64) as u32;
        let index: u32 = (b % 0x1_0000_0000u64) as u32;
        if generation == 0 {
            None
        } else {
            let id = Identifier { index, generation };
            proof {
                assert(id.bits() == b) by {
                    assert(b == 0x1_0000_0000 * (b / 0x1_0000_0000) + b % 0x1_0000_0000)
                        by (nonlinear_arith);
                };
            }
            Some(id)
        }
    }
}

/// Packing is injective on well-formed identifiers: equal wire values can
/// only come from equal (index, generation) pairs, so looking a record up
/// by its packed identifier is unambiguous.
pub proof fn lemma_bits_injective(a: Identifier, b: Identifier)
    requires
        a.bits() == b.bits(),
    ensures
        a == b,
{
    assert(a.generation == b.generation && a.index == b.index) by (nonlinear_arith)
        requires
            (a.generation as u64) * 0x1_0000_0000 + (a.index as u64) == (b.generation as u64)
                * 0x1_0000_0000 + (b.index as u64),
            a.index < 0x1_0000_0000,
            b.index < 0x1_0000_0000,
    ;
}

} // verus!
