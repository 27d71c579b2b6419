//! Candidates for a corner twist: every twist of every slot.
use vstd::prelude::*;
use crate::explorer::mixed_nearby_search::{AlternativeGenerator, MixedOperation};
use crate::inspection::corner_solver::CornerTwistOperation;

verus! {

/// Offers, for a corner twist, the twists 1 and 2 of each of the 8 slots (the
/// twist itself included); nothing for other operations.
pub struct CornerTwistAlternativeGenerator;

/// The 16 twists: slots in order, twist 1 then 2 within each.
pub open spec fn all_corner_twists() -> Seq<CornerTwistOperation> {
    Seq::new(16, |k: int| CornerTwistOperation { target: (k / 2) as usize, orientation: (k % 2 + 1) as u8 })
}

/// For a corner twist, the candidates are exactly the twists of every slot in
/// both directions (1 and 2), each offered once. Other operations get none.
pub proof fn lemma_corner_twist_candidates(op: MixedOperation)
    ensures
        ({
            let c = CornerTwistAlternativeGenerator.spec_alternatives(op);
            &&& !(op is CornerTwist) ==> c.len() == 0
            &&& op is CornerTwist ==> {
                &&& forall|i: int|
                    0 <= i < c.len() ==> (#[trigger] c[i] matches MixedOperation::CornerTwist(x) && x.target < 8 && 1
                        <= x.orientation <= 2)
                &&& forall|t: usize, o: u8|
                    t < 8 && 1 <= o <= 2 ==> #[trigger] c.contains(
                        MixedOperation::CornerTwist(CornerTwistOperation { target: t, orientation: o }),
                    )
                &&& c.no_duplicates()
            }
        }),
{
    let c = CornerTwistAlternativeGenerator.spec_alternatives(op);
    let s = all_corner_twists();
    if op is CornerTwist {
        assert forall|t: usize, o: u8| t < 8 && 1 <= o <= 2 implies #[trigger] c.contains(
            MixedOperation::CornerTwist(CornerTwistOperation { target: t, orientation: o }),
        ) by {
            let i: int = 2 * t + o - 1;
            assert(i / 2 == t && i % 2 == o - 1);
            assert(c[i] == MixedOperation::CornerTwist(s[i]));
        }
        assert forall|i: int, j: int| 0 <= i < c.len() && 0 <= j < c.len() && i != j implies c[i] != c[j] by {
            assert(c[i] == MixedOperation::CornerTwist(s[i]) && c[j] == MixedOperation::CornerTwist(s[j]));
            assert(i == 2 * (i / 2) + i % 2 && j == 2 * (j / 2) + j % 2);
        }
    }
}

impl CornerTwistAlternativeGenerator {
    fn generate_corner_twist_alternatives(&self) -> (r: Vec<CornerTwistOperation>)
        ensures
            r@ == all_corner_twists(),
    {
        let mut r: Vec<CornerTwistOperation> = Vec::new();
        let mut k: usize = 0;
        while k < 16
            invariant
                k <= 16,
                r@ == all_corner_twists().take(k as int),
            decreases 16 - k,
        {
            r.push(CornerTwistOperation::new(k / 2, (k % 2 + 1) as u8));
            k = k + 1;
            assert(r@ =~= all_corner_twists().take(k as int));
        }
        assert(all_corner_twists().take(16) =~= all_corner_twists());
        r
    }
}

impl AlternativeGenerator<MixedOperation> for CornerTwistAlternativeGenerator {
    open spec fn spec_alternatives(&self, operation: MixedOperation) -> Seq<MixedOperation> {
        match operation {
            MixedOperation::CornerTwist(_) => all_corner_twists().map_values(
                |o: CornerTwistOperation| MixedOperation::CornerTwist(o),
            ),
            _ => Seq::empty(),
        }
    }

    fn generate_alternatives(&self, operation: &MixedOperation) -> (r: Vec<MixedOperation>) {
        let mut r: Vec<MixedOperation> = Vec::new();
        match operation {
            MixedOperation::CornerTwist(_) => {
                let twists = self.generate_corner_twist_alternatives();
                let mut i: usize = 0;
                while i < twists.len()
                    invariant
                        i <= twists.len(),
                        r@ == twists@.take(i as int).map_values(|o: CornerTwistOperation| MixedOperation::CornerTwist(o)),
                    decreases twists.len() - i,
                {
                    r.push(MixedOperation::CornerTwist(twists[i]));
                    i = i + 1;
                    assert(r@ =~= twists@.take(i as int).map_values(
                        |o: CornerTwistOperation| MixedOperation::CornerTwist(o),
                    ));
                }
                assert(twists@.take(twists.len() as int) =~= twists@);
            },
            _ => {
                assert(r@ =~= Seq::<MixedOperation>::empty());
            },
        }
        r
    }
}

} // verus!
