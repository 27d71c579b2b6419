//! Candidates for a corner swap: every swap through the buffer.
use vstd::prelude::*;
use crate::explorer::mixed_nearby_search::{AlternativeGenerator, MixedOperation};
use crate::inspection::corner_solver::{CornerSwapOperation, CORNER_BUFFER};

verus! {

/// Offers, for a corner swap, every swap of the buffer with another slot and
/// each orientation (the swap itself included); nothing for other operations.
pub struct CornerSwapAlternativeGenerator;

/// The slot of the `k`-th non-buffer corner slot.
pub open spec fn corner_non_buffer_slot(k: int) -> int {
    if k < CORNER_BUFFER { k } else { k + 1 }
}

/// The 21 buffer swaps: slots in order (the buffer skipped), orientations 0..3 within each.
pub open spec fn corner_buffer_swaps() -> Seq<CornerSwapOperation> {
    Seq::new(
        21,
        |k: int|
            CornerSwapOperation {
                target1: CORNER_BUFFER,
                target2: corner_non_buffer_slot(k / 3) as usize,
                orientation: (k % 3) as u8,
            },
    )
}

/// For a corner swap, the candidates are exactly the swaps of the buffer with
/// each other slot, in each of the three orientations, each offered once; the
/// buffer is never swapped with itself. Other operations get none.
pub proof fn lemma_corner_swap_candidates(op: MixedOperation)
    ensures
        ({
            let c = CornerSwapAlternativeGenerator.spec_alternatives(op);
            &&& !(op is CornerSwap) ==> c.len() == 0
            &&& op is CornerSwap ==> {
                &&& forall|i: int|
                    0 <= i < c.len() ==> (#[trigger] c[i] matches MixedOperation::CornerSwap(x) && x.target1
                        == CORNER_BUFFER && x.target2 < 8 && x.target2 != CORNER_BUFFER && x.orientation < 3)
                &&& forall|t: usize, o: u8|
                    t < 8 && t != CORNER_BUFFER && o < 3 ==> #[trigger] c.contains(
                        MixedOperation::CornerSwap(
                            CornerSwapOperation { target1: CORNER_BUFFER, target2: t, orientation: o },
                        ),
                    )
                &&& c.no_duplicates()
            }
        }),
{
    let c = CornerSwapAlternativeGenerator.spec_alternatives(op);
    let s = corner_buffer_swaps();
    if op is CornerSwap {
        assert forall|t: usize, o: u8| t < 8 && t != CORNER_BUFFER && o < 3 implies #[trigger] c.contains(
            MixedOperation::CornerSwap(
                CornerSwapOperation { target1: CORNER_BUFFER, target2: t, orientation: o },
            ),
        ) by {
            let q: int = if t < CORNER_BUFFER { t as int } else { t - 1 };
            let i: int = 3 * q + o;
            assert(i / 3 == q && i % 3 == o);
            assert(c[i] == MixedOperation::CornerSwap(s[i]));
        }
        assert forall|i: int, j: int| 0 <= i < c.len() && 0 <= j < c.len() && i != j implies c[i] != c[j] by {
            assert(c[i] == MixedOperation::CornerSwap(s[i]) && c[j] == MixedOperation::CornerSwap(s[j]));
            assert(i == 3 * (i / 3) + i % 3 && j == 3 * (j / 3) + j % 3);
        }
    }
}

impl CornerSwapAlternativeGenerator {
    fn generate_corner_swap_alternatives(&self) -> (r: Vec<CornerSwapOperation>)
        ensures
            r@ == corner_buffer_swaps(),
    {
        let mut r: Vec<CornerSwapOperation> = Vec::new();
        let mut k: usize = 0;
        while k < 21
            invariant
                k <= 21,
                r@ == corner_buffer_swaps().take(k as int),
            decreases 21 - k,
        {
            let slot = if k / 3 < CORNER_BUFFER { k / 3 } else { k / 3 + 1 };
            r.push(CornerSwapOperation::new(CORNER_BUFFER, slot, (k % 3) as u8));
            k = k + 1;
            assert(r@ =~= corner_buffer_swaps().take(k as int));
        }
        assert(corner_buffer_swaps().take(21) =~= corner_buffer_swaps());
        r
    }
}

impl AlternativeGenerator<MixedOperation> for CornerSwapAlternativeGenerator {
    open spec fn spec_alternatives(&self, operation: MixedOperation) -> Seq<MixedOperation> {
        match operation {
            MixedOperation::CornerSwap(_) => corner_buffer_swaps().map_values(
                |o: CornerSwapOperation| MixedOperation::CornerSwap(o),
            ),
            _ => Seq::empty(),
        }
    }

    fn generate_alternatives(&self, operation: &MixedOperation) -> (r: Vec<MixedOperation>) {
        let mut r: Vec<MixedOperation> = Vec::new();
        match operation {
            MixedOperation::CornerSwap(_) => {
                let swaps = self.generate_corner_swap_alternatives();
                let mut i: usize = 0;
                while i < swaps.len()
                    invariant
                        i <= swaps.len(),
                        r@ == swaps@.take(i as int).map_values(|o: CornerSwapOperation| MixedOperation::CornerSwap(o)),
                    decreases swaps.len() - i,
                {
                    r.push(MixedOperation::CornerSwap(swaps[i]));
                    i = i + 1;
                    assert(r@ =~= swaps@.take(i as int).map_values(
                        |o: CornerSwapOperation| MixedOperation::CornerSwap(o),
                    ));
                }
                assert(swaps@.take(swaps.len() as int) =~= swaps@);
            },
            _ => {
                assert(r@ =~= Seq::<MixedOperation>::empty());
            },
        }
        r
    }
}

} // verus!
