//! Nearby search over a whole blindfolded solution, corners and edges mixed.
use vstd::prelude::*;
use super::bld_workflow::{bld_error, BldSolution, BldWorkflow};
use crate::cube::state::{is_permutation, State, StateView};
use crate::explorer::alternative_generator::corner_swap::{corner_buffer_swaps, CornerSwapAlternativeGenerator};
use crate::explorer::alternative_generator::edge_swap::{
    edge_buffer_swaps, edge_swap_differs, EdgeSwapAlternativeGenerator,
};
use crate::explorer::mixed_modifier::{MixedModifier, ModifiedMixedSequence};
use crate::explorer::mixed_nearby_search::{
    generated_alternatives, mixed_one_change_variants, mixed_ops_valid, mixed_pair_change_variants,
    mixed_variants_view, AlternativeGenerator, MixedOperation, NearbyMixedOperationSearch,
};
use crate::inspection::corner_solver::{is_corner_solution, CornerOperation, CornerSwapOperation};
use crate::inspection::edge_solver::{is_edge_solution, EdgeOperation, EdgeSwapOperation};
use crate::inspection::operations_to_turns::TurnTablesView;

verus! {

/// The generators of the workflow's search: corner swaps or edge swaps.
pub enum SwapAlternativeGenerator {
    Corner(CornerSwapAlternativeGenerator),
    Edge(EdgeSwapAlternativeGenerator),
}

impl AlternativeGenerator<MixedOperation> for SwapAlternativeGenerator {
    open spec fn spec_alternatives(&self, operation: MixedOperation) -> Seq<MixedOperation> {
        match self {
            SwapAlternativeGenerator::Corner(g) => g.spec_alternatives(operation),
            SwapAlternativeGenerator::Edge(g) => g.spec_alternatives(operation),
        }
    }

    fn generate_alternatives(&self, operation: &MixedOperation) -> (r: Vec<MixedOperation>) {
        match self {
            SwapAlternativeGenerator::Corner(g) => g.generate_alternatives(operation),
            SwapAlternativeGenerator::Edge(g) => g.generate_alternatives(operation),
        }
    }
}

/// The candidates the workflow tries for an operation: the corner swap
/// candidates, then the edge swap candidates.
pub open spec fn swap_candidates(op: MixedOperation) -> Seq<MixedOperation> {
    CornerSwapAlternativeGenerator.spec_alternatives(op) + EdgeSwapAlternativeGenerator.spec_alternatives(op)
}

/// The candidates for each step of `base`.
pub open spec fn swap_candidates_of(base: Seq<MixedOperation>) -> spec_fn(int) -> Seq<MixedOperation> {
    |s: int| swap_candidates(base[s])
}

/// The edge operations then the corner operations, as mixed operations.
pub open spec fn solution_mixed_ops(e: Seq<EdgeOperation>, c: Seq<CornerOperation>) -> Seq<MixedOperation> {
    e.map_values(
        |o: EdgeOperation|
            match o {
                EdgeOperation::Swap(x) => MixedOperation::EdgeSwap(x),
                EdgeOperation::Flip(x) => MixedOperation::EdgeFlip(x),
            },
    ) + c.map_values(
        |o: CornerOperation|
            match o {
                CornerOperation::Swap(x) => MixedOperation::CornerSwap(x),
                CornerOperation::Twist(x) => MixedOperation::CornerTwist(x),
            },
    )
}

/// The variants of the mixed solution: those with one step changed, then those
/// with two, every step taking swap candidates.
pub open spec fn solution_variants(base: Seq<MixedOperation>, init: StateView) -> Seq<
    ((Seq<MixedOperation>, Seq<MixedModifier>), StateView),
> {
    mixed_one_change_variants(base, swap_candidates_of(base), init) + mixed_pair_change_variants(
        base,
        swap_candidates_of(base),
        init,
    )
}

/// The variants that reach `target`, in order.
pub open spec fn mixed_variants_reaching(
    vs: Seq<((Seq<MixedOperation>, Seq<MixedModifier>), StateView)>,
    target: StateView,
) -> Seq<((Seq<MixedOperation>, Seq<MixedModifier>), StateView)>
    decreases vs.len(),
{
    if vs.len() == 0 {
        Seq::empty()
    } else {
        let prev = mixed_variants_reaching(vs.drop_last(), target);
        if vs.last().1 == target {
            prev.push(vs.last())
        } else {
            prev
        }
    }
}

/// `e` and `c` are the edge and corner solutions of `state`.
pub open spec fn solution_pair(state: StateView, e: Seq<EdgeOperation>, c: Seq<CornerOperation>) -> bool {
    is_corner_solution(state, c) && is_edge_solution(state, e)
}

proof fn lemma_filter_keeps<A>(s: Seq<A>, f: spec_fn(A) -> bool, p: spec_fn(A) -> bool)
    requires
        forall|i: int| 0 <= i < s.len() ==> p(#[trigger] s[i]),
    ensures
        forall|i: int| 0 <= i < s.filter(f).len() ==> p(#[trigger] s.filter(f)[i]),
    decreases s.len(),
{
    reveal_with_fuel(Seq::filter, 1);
    if s.len() > 0 {
        assert(forall|i: int| 0 <= i < s.drop_last().len() ==> p(#[trigger] s.drop_last()[i]));
        lemma_filter_keeps(s.drop_last(), f, p);
        let fd = s.drop_last().filter(f);
        assert(s.filter(f) == if f(s.last()) { fd.push(s.last()) } else { fd });
        assert forall|i: int| 0 <= i < s.filter(f).len() implies p(#[trigger] s.filter(f)[i]) by {
            if i < fd.len() {
                assert(s.filter(f)[i] == fd[i]);
            } else {
                assert(s.filter(f)[i] == s.last());
            }
        }
    }
}

proof fn lemma_swap_candidates_valid(op: MixedOperation)
    ensures
        mixed_ops_valid(swap_candidates(op)),
{
    match op {
        MixedOperation::EdgeSwap(o) => {
            let s = edge_buffer_swaps();
            let p = |x: EdgeSwapOperation| x.valid();
            assert forall|i: int| 0 <= i < s.len() implies p(#[trigger] s[i]) by {}
            lemma_filter_keeps(s, edge_swap_differs(o), p);
        },
        _ => {},
    }
    assert forall|i: int| 0 <= i < swap_candidates(op).len() implies (#[trigger] swap_candidates(op)[i]).valid() by {
        let a = CornerSwapAlternativeGenerator.spec_alternatives(op);
        if i >= a.len() {
            let b = EdgeSwapAlternativeGenerator.spec_alternatives(op);
            assert(swap_candidates(op)[i] == b[i - a.len()]);
        }
    }
}

/// Searches the solution of a state for variants with one or two swaps changed.
pub struct MixedNearbySearchWorkflow {
    bld_workflow: BldWorkflow,
}

impl View for MixedNearbySearchWorkflow {
    type V = TurnTablesView;

    closed spec fn view(&self) -> TurnTablesView {
        self.bld_workflow@
    }
}

impl MixedNearbySearchWorkflow {
    pub fn new(bld_workflow: BldWorkflow) -> (r: Self)
        ensures
            r@ == bld_workflow@,
    {
        MixedNearbySearchWorkflow { bld_workflow }
    }

    /// The solution of `state` (see [`BldWorkflow::solve`]).
    pub fn get_correct_solution(&self, state: &State) -> (r: Result<BldSolution, String>)
        requires
            is_permutation(state@.cp),
            is_permutation(state@.ep),
            state@.orientations_valid(),
        ensures
            match r {
                Ok(sol) => {
                    &&& is_corner_solution(state@, sol.corner_operations@)
                    &&& is_edge_solution(state@, sol.edge_operations@)
                    &&& crate::inspection::corner_solver::corner_ops_valid(sol.corner_operations@)
                    &&& crate::inspection::edge_solver::edge_ops_valid(sol.edge_operations@)
                    &&& bld_error(self@, sol.edge_operations@, sol.corner_operations@) is None
                },
                Err(e) => exists|c: Seq<CornerOperation>, eo: Seq<EdgeOperation>|
                    is_corner_solution(state@, c) && is_edge_solution(state@, eo) && bld_error(self@, eo, c)
                        == Some(e@),
            },
    {
        self.bld_workflow.solve(state)
    }

    /// The edge operations then the corner operations of a solution, as mixed operations.
    pub fn solution_to_mixed_operations(&self, solution: &BldSolution) -> (r: Vec<MixedOperation>)
        ensures
            r@ == solution_mixed_ops(solution.edge_operations@, solution.corner_operations@),
    {
        let ghost e = solution.edge_operations@;
        let ghost c = solution.corner_operations@;
        let mut mixed_ops: Vec<MixedOperation> = Vec::new();
        let mut i: usize = 0;
        while i < solution.edge_operations.len()
            invariant
                i <= e.len(),
                e == solution.edge_operations@,
                mixed_ops@ == solution_mixed_ops(e.take(i as int), Seq::empty()),
            decreases e.len() - i,
        {
            match solution.edge_operations[i] {
                EdgeOperation::Swap(x) => mixed_ops.push(MixedOperation::EdgeSwap(x)),
                EdgeOperation::Flip(x) => mixed_ops.push(MixedOperation::EdgeFlip(x)),
            }
            i = i + 1;
            assert(mixed_ops@ =~= solution_mixed_ops(e.take(i as int), Seq::empty()));
        }
        assert(e.take(e.len() as int) =~= e);
        let ghost edge_part = mixed_ops@;
        let mut j: usize = 0;
        while j < solution.corner_operations.len()
            invariant
                j <= c.len(),
                c == solution.corner_operations@,
                edge_part == solution_mixed_ops(e, Seq::empty()),
                mixed_ops@ == solution_mixed_ops(e, c.take(j as int)),
            decreases c.len() - j,
        {
            match solution.corner_operations[j] {
                CornerOperation::Swap(x) => mixed_ops.push(MixedOperation::CornerSwap(x)),
                CornerOperation::Twist(x) => mixed_ops.push(MixedOperation::CornerTwist(x)),
            }
            j = j + 1;
            assert(mixed_ops@ =~= solution_mixed_ops(e, c.take(j as int)));
        }
        assert(c.take(c.len() as int) =~= c);
        mixed_ops
    }

    fn search_variants(&self, initial_state: &State, solution: &BldSolution) -> (r: Vec<(ModifiedMixedSequence, State)>)
        requires
            initial_state@.orientations_valid(),
            crate::inspection::corner_solver::corner_ops_valid(solution.corner_operations@),
            crate::inspection::edge_solver::edge_ops_valid(solution.edge_operations@),
        ensures
            mixed_variants_view(r@) == solution_variants(
                solution_mixed_ops(solution.edge_operations@, solution.corner_operations@),
                initial_state@,
            ),
    {
        let mixed_operations = self.solution_to_mixed_operations(solution);
        let ghost base = mixed_operations@;
        assert(mixed_ops_valid(base)) by {
            let e = solution.edge_operations@;
            let c = solution.corner_operations@;
            assert forall|i: int| 0 <= i < base.len() implies (#[trigger] base[i]).valid() by {
                if i < e.len() {
                    assert(e[i].valid());
                } else {
                    assert(c[i - e.len()].valid());
                }
            }
        }
        let mut generators: Vec<Box<SwapAlternativeGenerator>> = Vec::new();
        generators.push(Box::new(SwapAlternativeGenerator::Corner(CornerSwapAlternativeGenerator)));
        generators.push(Box::new(SwapAlternativeGenerator::Edge(EdgeSwapAlternativeGenerator)));
        let ghost gens = generators@;
        let search = NearbyMixedOperationSearch::with_alternative_generators(mixed_operations, generators);
        proof {
            reveal_with_fuel(generated_alternatives, 3);
            assert forall|op: MixedOperation| generated_alternatives(gens, op) == swap_candidates(op) by {
                assert(gens.drop_last().drop_last() =~= Seq::<Box<SwapAlternativeGenerator>>::empty());
                assert(Seq::<MixedOperation>::empty() + CornerSwapAlternativeGenerator.spec_alternatives(op)
                    =~= CornerSwapAlternativeGenerator.spec_alternatives(op));
            }
            assert(search.step_alternatives() =~= swap_candidates_of(base));
            assert forall|s: int| 0 <= s < base.len() implies mixed_ops_valid(
                #[trigger] (search.step_alternatives())(s),
            ) by {
                lemma_swap_candidates_valid(base[s]);
            }
        }
        search.explore_variants_two_changes(initial_state)
    }

    /// The variants of the solution of `initial_state` (one or two steps
    /// changed, each to a swap candidate) that reach `target_state`; or the
    /// solution's error.
    pub fn find_variants_reaching_target(&self, initial_state: &State, target_state: &State) -> (r: Result<
        Vec<(ModifiedMixedSequence, State)>,
        String,
    >)
        requires
            is_permutation(initial_state@.cp),
            is_permutation(initial_state@.ep),
            initial_state@.orientations_valid(),
        ensures
            match r {
                Ok(v) => exists|e: Seq<EdgeOperation>, c: Seq<CornerOperation>|
                    #[trigger] solution_pair(initial_state@, e, c) && bld_error(self@, e, c) is None
                        && mixed_variants_view(v@) == mixed_variants_reaching(
                        solution_variants(solution_mixed_ops(e, c), initial_state@),
                        target_state@,
                    ),
                Err(x) => exists|e: Seq<EdgeOperation>, c: Seq<CornerOperation>|
                    #[trigger] solution_pair(initial_state@, e, c) && bld_error(self@, e, c) == Some(x@),
            },
    {
        let solution = match self.get_correct_solution(initial_state) {
            Ok(s) => s,
            Err(x) => {
                proof {
                    let (c, eo) = choose|c: Seq<CornerOperation>, eo: Seq<EdgeOperation>|
                        is_corner_solution(initial_state@, c) && is_edge_solution(initial_state@, eo) && bld_error(
                            self@,
                            eo,
                            c,
                        ) == Some(x@);
                    assert(solution_pair(initial_state@, eo, c));
                }
                return Err(x);
            },
        };
        let variants = self.search_variants(initial_state, &solution);
        let ghost all = mixed_variants_view(variants@);
        let mut matching: Vec<(ModifiedMixedSequence, State)> = Vec::new();
        let mut k: usize = 0;
        while k < variants.len()
            invariant
                k <= variants.len(),
                all == mixed_variants_view(variants@),
                mixed_variants_view(matching@) == mixed_variants_reaching(all.take(k as int), target_state@),
            decreases variants.len() - k,
        {
            assert(all.take(k + 1).drop_last() =~= all.take(k as int));
            assert(all[k as int] == (variants@[k as int].0@, variants@[k as int].1@));
            proof {
                crate::cube::state::lemma_state_eq_view(variants@[k as int].1, *target_state);
            }
            if variants[k].1 == *target_state {
                let item = (variants[k].0.copy(), variants[k].1);
                let ghost before = mixed_variants_view(matching@);
                matching.push(item);
                assert(mixed_variants_view(matching@) =~= before.push(all[k as int]));
            }
            k = k + 1;
        }
        let ghost n = all.len();
        assert(all.take(n as int) =~= all);
        proof {
            assert(solution_pair(initial_state@, solution.edge_operations@, solution.corner_operations@));
        }
        Ok(matching)
    }

    /// All variants of the solution of `initial_state` (one or two steps changed,
    /// each to a swap candidate); or the solution's error.
    pub fn explore_all_variants(&self, initial_state: &State) -> (r: Result<Vec<(ModifiedMixedSequence, State)>, String>)
        requires
            is_permutation(initial_state@.cp),
            is_permutation(initial_state@.ep),
            initial_state@.orientations_valid(),
        ensures
            match r {
                Ok(v) => exists|e: Seq<EdgeOperation>, c: Seq<CornerOperation>|
                    #[trigger] solution_pair(initial_state@, e, c) && bld_error(self@, e, c) is None
                        && mixed_variants_view(v@) == solution_variants(solution_mixed_ops(e, c), initial_state@),
                Err(x) => exists|e: Seq<EdgeOperation>, c: Seq<CornerOperation>|
                    #[trigger] solution_pair(initial_state@, e, c) && bld_error(self@, e, c) == Some(x@),
            },
    {
        let solution = match self.get_correct_solution(initial_state) {
            Ok(s) => s,
            Err(x) => {
                proof {
                    let (c, eo) = choose|c: Seq<CornerOperation>, eo: Seq<EdgeOperation>|
                        is_corner_solution(initial_state@, c) && is_edge_solution(initial_state@, eo) && bld_error(
                            self@,
                            eo,
                            c,
                        ) == Some(x@);
                    assert(solution_pair(initial_state@, eo, c));
                }
                return Err(x);
            },
        };
        let variants = self.search_variants(initial_state, &solution);
        proof {
            assert(solution_pair(initial_state@, solution.edge_operations@, solution.corner_operations@));
        }
        Ok(variants)
    }

    pub fn bld_workflow(&self) -> (r: &BldWorkflow)
        ensures
            r@ == self@,
    {
        &self.bld_workflow
    }
}

} // verus!
