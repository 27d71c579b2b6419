//! Candidates for an edge swap: every other swap through the buffer.
use vstd::prelude::*;
use crate::explorer::mixed_nearby_search::{AlternativeGenerator, MixedOperation};
use crate::inspection::edge_solver::{EdgeSwapOperation, EDGE_BUFFER};
use crate::explorer::notation_alternative_generator::lemma_filter_no_duplicates;

verus! {

/// Offers, for an edge swap, every swap of the buffer with another slot and
/// each orientation, except the swap itself; nothing for other operations.
pub struct EdgeSwapAlternativeGenerator;

/// The slot of the `k`-th non-buffer edge slot.
pub open spec fn edge_non_buffer_slot(k: int) -> int {
    if k < EDGE_BUFFER { k } else { k + 1 }
}

/// The 22 buffer swaps: slots in order (the buffer skipped), orientations 0..2 within each.
pub open spec fn edge_buffer_swaps() -> Seq<EdgeSwapOperation> {
    Seq::new(
        22,
        |k: int|
            EdgeSwapOperation {
                target1: EDGE_BUFFER,
                target2: edge_non_buffer_slot(k / 2) as usize,
                orientation: (k % 2) as u8,
            },
    )
}

/// The test "differs from `o`".
pub open spec fn edge_swap_differs(o: EdgeSwapOperation) -> spec_fn(EdgeSwapOperation) -> bool {
    |c: EdgeSwapOperation| c != o
}

/// For an edge swap, the candidates are exactly the swaps of the buffer with
/// each other slot, in each of the two orientations, other than the swap
/// itself, each offered once; the buffer is never swapped with itself. Other
/// operations get none.
pub proof fn lemma_edge_swap_candidates(op: MixedOperation)
    ensures
        ({
            let c = EdgeSwapAlternativeGenerator.spec_alternatives(op);
            &&& !(op is EdgeSwap) ==> c.len() == 0
            &&& op matches MixedOperation::EdgeSwap(orig) ==> {
                &&& forall|i: int|
                    0 <= i < c.len() ==> (#[trigger] c[i] matches MixedOperation::EdgeSwap(x) && x.target1
                        == EDGE_BUFFER && x.target2 < 12 && x.target2 != EDGE_BUFFER && x.orientation < 2 && x != orig)
                &&& forall|t: usize, o: u8|
                    t < 12 && t != EDGE_BUFFER && o < 2 && (EdgeSwapOperation {
                        target1: EDGE_BUFFER,
                        target2: t,
                        orientation: o,
                    }) != orig ==> #[trigger] c.contains(
                        MixedOperation::EdgeSwap(EdgeSwapOperation { target1: EDGE_BUFFER, target2: t, orientation: o }),
                    )
                &&& c.no_duplicates()
            }
        }),
{
    let c = EdgeSwapAlternativeGenerator.spec_alternatives(op);
    let s = edge_buffer_swaps();
    if let MixedOperation::EdgeSwap(orig) = op {
        let p = edge_swap_differs(orig);
        let f = s.filter(p);
        assert(c == f.map_values(|x: EdgeSwapOperation| MixedOperation::EdgeSwap(x)));
        assert forall|i: int| 0 <= i < c.len() implies (#[trigger] c[i] matches MixedOperation::EdgeSwap(x) && x.target1
            == EDGE_BUFFER && x.target2 < 12 && x.target2 != EDGE_BUFFER && x.orientation < 2 && x != orig) by {
            assert(c[i] == MixedOperation::EdgeSwap(f[i]));
            s.lemma_filter_pred(p, i);
            assert(f.contains(f[i]));
            s.lemma_filter_contains_rev(p, f[i]);
        }
        assert forall|t: usize, o: u8|
            t < 12 && t != EDGE_BUFFER && o < 2 && (EdgeSwapOperation {
                target1: EDGE_BUFFER,
                target2: t,
                orientation: o,
            }) != orig implies #[trigger] c.contains(
            MixedOperation::EdgeSwap(EdgeSwapOperation { target1: EDGE_BUFFER, target2: t, orientation: o }),
        ) by {
            let q: int = if t < EDGE_BUFFER { t as int } else { t - 1 };
            let i: int = 2 * q + o;
            assert(i / 2 == q && i % 2 == o);
            s.lemma_filter_contains(p, i);
            let j = choose|j: int| 0 <= j < f.len() && f[j] == s[i];
            assert(c[j] == MixedOperation::EdgeSwap(f[j]));
        }
        assert(s.no_duplicates()) by {
            assert forall|i: int, j: int| 0 <= i < s.len() && 0 <= j < s.len() && i != j implies s[i] != s[j] by {
                assert(i == 2 * (i / 2) + i % 2 && j == 2 * (j / 2) + j % 2);
            }
        }
        lemma_filter_no_duplicates(s, p);
        assert forall|i: int, j: int| 0 <= i < c.len() && 0 <= j < c.len() && i != j implies c[i] != c[j] by {
            assert(c[i] == MixedOperation::EdgeSwap(f[i]) && c[j] == MixedOperation::EdgeSwap(f[j]));
        }
    }
}

impl EdgeSwapAlternativeGenerator {
    fn generate_edge_swap_alternatives(&self, original: &EdgeSwapOperation) -> (r: Vec<EdgeSwapOperation>)
        ensures
            r@ == edge_buffer_swaps().filter(edge_swap_differs(*original)),
    {
        let ghost cands = edge_buffer_swaps();
        let mut r: Vec<EdgeSwapOperation> = Vec::new();
        let mut k: usize = 0;
        while k < 22
            invariant
                k <= 22,
                cands == edge_buffer_swaps(),
                r@ == cands.take(k as int).filter(edge_swap_differs(*original)),
            decreases 22 - k,
        {
            proof {
                reveal_with_fuel(Seq::filter, 1);
                assert(cands.take(k + 1).drop_last() =~= cands.take(k as int));
            }
            let slot = if k / 2 < EDGE_BUFFER { k / 2 } else { k / 2 + 1 };
            let candidate = EdgeSwapOperation::new(EDGE_BUFFER, slot, (k % 2) as u8);
            assert(candidate == cands[k as int]);
            if candidate != *original {
                r.push(candidate);
            }
            k = k + 1;
        }
        assert(cands.take(22) =~= cands);
        r
    }
}

impl AlternativeGenerator<MixedOperation> for EdgeSwapAlternativeGenerator {
    open spec fn spec_alternatives(&self, operation: MixedOperation) -> Seq<MixedOperation> {
        match operation {
            MixedOperation::EdgeSwap(o) => edge_buffer_swaps().filter(edge_swap_differs(o)).map_values(
                |c: EdgeSwapOperation| MixedOperation::EdgeSwap(c),
            ),
            _ => Seq::empty(),
        }
    }

    fn generate_alternatives(&self, operation: &MixedOperation) -> (r: Vec<MixedOperation>) {
        let mut r: Vec<MixedOperation> = Vec::new();
        match operation {
            MixedOperation::EdgeSwap(o) => {
                let swaps = self.generate_edge_swap_alternatives(o);
                let mut i: usize = 0;
                while i < swaps.len()
                    invariant
                        i <= swaps.len(),
                        r@ == swaps@.take(i as int).map_values(|c: EdgeSwapOperation| MixedOperation::EdgeSwap(c)),
                    decreases swaps.len() - i,
                {
                    r.push(MixedOperation::EdgeSwap(swaps[i]));
                    i = i + 1;
                    assert(r@ =~= swaps@.take(i as int).map_values(|c: EdgeSwapOperation| MixedOperation::EdgeSwap(c)));
                }
                assert(swaps@.take(swaps.len() as int) =~= swaps@);
            },
            _ => {
                assert(r@ =~= Seq::<MixedOperation>::empty());
            },
        }
        r
    }
}

} // verus!
