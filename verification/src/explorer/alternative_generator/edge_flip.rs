//! Candidates for an edge flip: the flip of every slot.
use vstd::prelude::*;
use crate::explorer::mixed_nearby_search::{AlternativeGenerator, MixedOperation};
use crate::inspection::edge_solver::EdgeFlipOperation;

verus! {

/// Offers, for an edge flip, the flip of each of the 12 slots (the flip itself
/// included); nothing for other operations.
pub struct EdgeFlipAlternativeGenerator;

/// The 12 flips, in slot order.
pub open spec fn all_edge_flips() -> Seq<EdgeFlipOperation> {
    Seq::new(12, |k: int| EdgeFlipOperation { target: k as usize })
}

/// For an edge flip, the candidates are exactly the flips of the twelve slots,
/// each offered once. Other operations get none.
pub proof fn lemma_edge_flip_candidates(op: MixedOperation)
    ensures
        ({
            let c = EdgeFlipAlternativeGenerator.spec_alternatives(op);
            &&& !(op is EdgeFlip) ==> c.len() == 0
            &&& op is EdgeFlip ==> {
                &&& forall|i: int|
                    0 <= i < c.len() ==> (#[trigger] c[i] matches MixedOperation::EdgeFlip(x) && x.target < 12)
                &&& forall|t: usize|
                    t < 12 ==> #[trigger] c.contains(MixedOperation::EdgeFlip(EdgeFlipOperation { target: t }))
                &&& c.no_duplicates()
            }
        }),
{
    let c = EdgeFlipAlternativeGenerator.spec_alternatives(op);
    let s = all_edge_flips();
    if op is EdgeFlip {
        assert forall|t: usize| t < 12 implies #[trigger] c.contains(
            MixedOperation::EdgeFlip(EdgeFlipOperation { target: t }),
        ) by {
            assert(c[t as int] == MixedOperation::EdgeFlip(s[t as int]));
        }
        assert forall|i: int, j: int| 0 <= i < c.len() && 0 <= j < c.len() && i != j implies c[i] != c[j] by {
            assert(c[i] == MixedOperation::EdgeFlip(s[i]) && c[j] == MixedOperation::EdgeFlip(s[j]));
        }
    }
}

impl EdgeFlipAlternativeGenerator {
    fn generate_edge_flip_alternatives(&self) -> (r: Vec<EdgeFlipOperation>)
        ensures
            r@ == all_edge_flips(),
    {
        let mut r: Vec<EdgeFlipOperation> = Vec::new();
        let mut k: usize = 0;
        while k < 12
            invariant
                k <= 12,
                r@ == all_edge_flips().take(k as int),
            decreases 12 - k,
        {
            r.push(EdgeFlipOperation::new(k));
            k = k + 1;
            assert(r@ =~= all_edge_flips().take(k as int));
        }
        assert(all_edge_flips().take(12) =~= all_edge_flips());
        r
    }
}

impl AlternativeGenerator<MixedOperation> for EdgeFlipAlternativeGenerator {
    open spec fn spec_alternatives(&self, operation: MixedOperation) -> Seq<MixedOperation> {
        match operation {
            MixedOperation::EdgeFlip(_) => all_edge_flips().map_values(|o: EdgeFlipOperation| MixedOperation::EdgeFlip(o)),
            _ => Seq::empty(),
        }
    }

    fn generate_alternatives(&self, operation: &MixedOperation) -> (r: Vec<MixedOperation>) {
        let mut r: Vec<MixedOperation> = Vec::new();
        match operation {
            MixedOperation::EdgeFlip(_) => {
                let flips = self.generate_edge_flip_alternatives();
                let mut i: usize = 0;
                while i < flips.len()
                    invariant
                        i <= flips.len(),
                        r@ == flips@.take(i as int).map_values(|o: EdgeFlipOperation| MixedOperation::EdgeFlip(o)),
                    decreases flips.len() - i,
                {
                    r.push(MixedOperation::EdgeFlip(flips[i]));
                    i = i + 1;
                    assert(r@ =~= flips@.take(i as int).map_values(|o: EdgeFlipOperation| MixedOperation::EdgeFlip(o)));
                }
                assert(flips@.take(flips.len() as int) =~= flips@);
            },
            _ => {
                assert(r@ =~= Seq::<MixedOperation>::empty());
            },
        }
        r
    }
}

} // verus!
