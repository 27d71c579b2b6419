use vstd::prelude::*;
use super::edge_modifier::{
    edge_list_displayable, apply_edge_modifiers, copy_edge_ops, edge_modified_text, edge_modifier_for,
    lemma_apply_edge_modifiers_len, EdgeModifier, ModifiedEdgeSequence, EdgeSwapModifier, EdgeFlipModifier,
};
use super::nearby_search::{
    block_lens, lemma_flatten_alt_step, lemma_flatten_len, lemma_sum_of_const, lemma_sum_of_ext, pair_product_sum,
    pair_row_terms, pair_terms, sum_of,
};
use crate::cube::state::{State, StateView};
use crate::inspection::edge_solver::{
    apply_edge_operations, apply_edge_ops, edge_op_displayable, edge_ops_valid, EdgeOperation, EdgeSwapOperation,
    EdgeFlipOperation, EDGE_BUFFER,
};

use crate::explorer::notation_alternative_generator::lemma_filter_no_duplicates;

verus! {

/// The 24 swaps through the buffer: target slot 0..12, orientation 0..2, in that order.
pub open spec fn edge_swap_candidates() -> Seq<EdgeOperation> {
    Seq::new(24, |k: int| EdgeOperation::Swap(EdgeSwapOperation { target1: EDGE_BUFFER, target2: (k / 2) as usize, orientation: (k % 2) as u8 }))
}

/// The 12 flips, one per slot, in slot order.
pub open spec fn edge_flip_candidates() -> Seq<EdgeOperation> {
    Seq::new(12, |k: int| EdgeOperation::Flip(EdgeFlipOperation { target: k as usize }))
}

/// The replacements tried for an operation: every candidate of the same kind
/// except the operation itself. A swap candidate always starts at the buffer,
/// so it stands for the original swap when it has the same second target and
/// orientation.
pub open spec fn edge_alternatives(op: EdgeOperation) -> Seq<EdgeOperation> {
    match op {
        EdgeOperation::Swap(_) => edge_swap_candidates().filter(edge_differs(op)),
        EdgeOperation::Flip(_) => edge_flip_candidates().filter(edge_differs(op)),
    }
}

/// Whether candidate `c` makes the same choice as `op`.
pub open spec fn edge_same_choice(c: EdgeOperation, op: EdgeOperation) -> bool {
    match (c, op) {
        (EdgeOperation::Swap(a), EdgeOperation::Swap(b)) => a.target2 == b.target2 && a.orientation == b.orientation,
        _ => c == op,
    }
}

/// The test "makes another choice than `op`".
pub open spec fn edge_differs(op: EdgeOperation) -> spec_fn(EdgeOperation) -> bool {
    |c: EdgeOperation| !edge_same_choice(c, op)
}

/// The replacements tried for an edge operation: for a swap, exactly the swaps
/// from the buffer to any slot in either orientation that make another choice
/// of slot or orientation; for a flip, exactly the flips of the other slots.
/// Each is tried once.
pub proof fn lemma_edge_alternatives_exact(op: EdgeOperation)
    ensures
        forall|c: EdgeOperation|
            #[trigger] edge_alternatives(op).contains(c) <==> match (op, c) {
                (EdgeOperation::Swap(x), EdgeOperation::Swap(y)) => y.target1 == EDGE_BUFFER && y.target2 < 12
                    && y.orientation < 2 && !(y.target2 == x.target2 && y.orientation == x.orientation),
                (EdgeOperation::Flip(x), EdgeOperation::Flip(y)) => y.target < 12 && y != x,
                _ => false,
            },
        edge_alternatives(op).no_duplicates(),
{
    let cands = match op {
        EdgeOperation::Swap(_) => edge_swap_candidates(),
        EdgeOperation::Flip(_) => edge_flip_candidates(),
    };
    let p = edge_differs(op);
    let alts = edge_alternatives(op);
    assert(alts == cands.filter(p));
    assert(cands.no_duplicates()) by {
        assert forall|i: int, j: int| 0 <= i < cands.len() && 0 <= j < cands.len() && i != j implies cands[i]
            != cands[j] by {
            assert(i == 2 * (i / 2) + i % 2 && j == 2 * (j / 2) + j % 2);
        }
    }
    lemma_filter_no_duplicates(cands, p);
    assert forall|c: EdgeOperation| #[trigger] alts.contains(c) <==> match (op, c) {
        (EdgeOperation::Swap(x), EdgeOperation::Swap(y)) => y.target1 == EDGE_BUFFER && y.target2 < 12
            && y.orientation < 2 && !(y.target2 == x.target2 && y.orientation == x.orientation),
        (EdgeOperation::Flip(x), EdgeOperation::Flip(y)) => y.target < 12 && y != x,
        _ => false,
    } by {
        if alts.contains(c) {
            cands.lemma_filter_contains_rev(p, c);
            let j = choose|j: int| 0 <= j < alts.len() && alts[j] == c;
            cands.lemma_filter_pred(p, j);
        }
        match (op, c) {
            (EdgeOperation::Swap(x), EdgeOperation::Swap(y)) => {
                if y.target1 == EDGE_BUFFER && y.target2 < 12 && y.orientation < 2 && !(y.target2 == x.target2
                    && y.orientation == x.orientation) {
                    let k: int = 2 * y.target2 + y.orientation;
                    assert(k / 2 == y.target2 && k % 2 == y.orientation);
                    assert(cands[k] == c);
                    cands.lemma_filter_contains(p, k);
                }
            },
            (EdgeOperation::Flip(x), EdgeOperation::Flip(y)) => {
                if y.target < 12 && y != x {
                    let k: int = y.target as int;
                    assert(cands[k] == c);
                    cands.lemma_filter_contains(p, k);
                }
            },
            _ => {},
        }
    }
}

/// A variant: the modified list and the state that its operations produce.
pub open spec fn edge_variant(base: Seq<EdgeOperation>, mods: Seq<EdgeModifier>, init: StateView) -> (
    (Seq<EdgeOperation>, Seq<EdgeModifier>),
    StateView,
) {
    ((base, mods), apply_edge_ops(init, apply_edge_modifiers(base, mods)))
}

/// The variants that replace step `s` by each of its alternatives.
pub open spec fn edge_step_variants(base: Seq<EdgeOperation>, init: StateView, s: int) -> Seq<
    ((Seq<EdgeOperation>, Seq<EdgeModifier>), StateView),
> {
    edge_alternatives(base[s]).map_values(
        |alt: EdgeOperation| edge_variant(base, seq![edge_modifier_for(s as usize, alt)], init),
    )
}

/// All one-step variants, step by step.
pub open spec fn edge_one_change_variants(base: Seq<EdgeOperation>, init: StateView) -> Seq<
    ((Seq<EdgeOperation>, Seq<EdgeModifier>), StateView),
> {
    Seq::new(base.len(), |s: int| edge_step_variants(base, init, s)).flatten_alt()
}

/// The variants that replace step `i` by its `a`-th alternative and step `j` by each of its alternatives.
pub open spec fn edge_pair_row(base: Seq<EdgeOperation>, init: StateView, i: int, j: int, a: int) -> Seq<
    ((Seq<EdgeOperation>, Seq<EdgeModifier>), StateView),
> {
    edge_alternatives(base[j]).map_values(
        |b: EdgeOperation|
            edge_variant(
                base,
                seq![edge_modifier_for(i as usize, edge_alternatives(base[i])[a]), edge_modifier_for(j as usize, b)],
                init,
            ),
    )
}

/// The variants that replace steps `i` and `j`.
pub open spec fn edge_pair_variants(base: Seq<EdgeOperation>, init: StateView, i: int, j: int) -> Seq<
    ((Seq<EdgeOperation>, Seq<EdgeModifier>), StateView),
> {
    Seq::new(edge_alternatives(base[i]).len(), |a: int| edge_pair_row(base, init, i, j, a)).flatten_alt()
}

/// The variants that replace step `i` and one later step.
pub open spec fn edge_first_step_variants(base: Seq<EdgeOperation>, init: StateView, i: int) -> Seq<
    ((Seq<EdgeOperation>, Seq<EdgeModifier>), StateView),
> {
    Seq::new((base.len() - i - 1) as nat, |d: int| edge_pair_variants(base, init, i, i + 1 + d)).flatten_alt()
}

/// All variants that replace two different steps (first step ascending, then second step ascending).
pub open spec fn edge_two_change_variants(base: Seq<EdgeOperation>, init: StateView) -> Seq<
    ((Seq<EdgeOperation>, Seq<EdgeModifier>), StateView),
> {
    Seq::new(base.len(), |i: int| edge_first_step_variants(base, init, i)).flatten_alt()
}

/// The view of a list of variants.
pub open spec fn edge_variants_view(v: Seq<(ModifiedEdgeSequence, State)>) -> Seq<
    ((Seq<EdgeOperation>, Seq<EdgeModifier>), StateView),
> {
    v.map_values(|p: (ModifiedEdgeSequence, State)| (p.0@, p.1@))
}

/// Every variant in `vs` has an operation list different from `base`.
pub open spec fn all_edge_variants_differ_from(
    vs: Seq<((Seq<EdgeOperation>, Seq<EdgeModifier>), StateView)>,
    base: Seq<EdgeOperation>,
) -> bool {
    forall|k: int| 0 <= k < vs.len() ==> apply_edge_modifiers((#[trigger] vs[k]).0.0, vs[k].0.1) != base
}

proof fn lemma_edge_step_variants_differ(base: Seq<EdgeOperation>, init: StateView, s: int)
    requires
        0 <= s < base.len(),
        base.len() <= usize::MAX,
    ensures
        all_edge_variants_differ_from(edge_step_variants(base, init, s), base),
{
    let alts = edge_alternatives(base[s]);
    let vs = edge_step_variants(base, init, s);
    assert forall|k: int| 0 <= k < vs.len() implies apply_edge_modifiers((#[trigger] vs[k]).0.0, vs[k].0.1) != base by {
        let c = alts[k];
        match base[s] {
            EdgeOperation::Swap(_) => edge_swap_candidates().lemma_filter_pred(edge_differs(base[s]), k),
            EdgeOperation::Flip(_) => edge_flip_candidates().lemma_filter_pred(edge_differs(base[s]), k),
        }
        let mods = seq![edge_modifier_for(s as usize, c)];
        assert(mods.drop_last() =~= Seq::<EdgeModifier>::empty());
        lemma_modifier_for(s as usize, c);
        assert(apply_edge_modifiers(base, mods.drop_last()) == base);
        assert(vs[k].0 == (base, mods));
        assert(apply_edge_modifiers(base, mods) == base.update(s, c));
        assert(apply_edge_modifiers(base, mods)[s] != base[s]);
    }
}

proof fn lemma_edge_prefix_variants_differ(base: Seq<EdgeOperation>, init: StateView, n: int)
    requires
        0 <= n <= base.len(),
        base.len() <= usize::MAX,
    ensures
        all_edge_variants_differ_from(Seq::new(n as nat, |s: int| edge_step_variants(base, init, s)).flatten_alt(), base),
    decreases n,
{
    let blocks = |s: int| edge_step_variants(base, init, s);
    if n == 0 {
        assert(Seq::new(0, blocks).flatten_alt() =~= Seq::empty());
    } else {
        lemma_edge_prefix_variants_differ(base, init, n - 1);
        lemma_flatten_alt_step(blocks, n - 1);
        lemma_edge_step_variants_differ(base, init, n - 1);
        let prev = Seq::new((n - 1) as nat, blocks).flatten_alt();
        let next = Seq::new(n as nat, blocks).flatten_alt();
        assert forall|k: int| 0 <= k < next.len() implies apply_edge_modifiers((#[trigger] next[k]).0.0, next[k].0.1) != base by {
            if k < prev.len() {
                assert(next[k] == prev[k]);
            } else {
                assert(next[k] == blocks(n - 1)[k - prev.len()]);
            }
        }
    }
}

/// No one-step variant repeats the base list: each replaces a step by another operation.
pub proof fn lemma_edge_one_change_variants_differ(base: Seq<EdgeOperation>, init: StateView)
    requires
        base.len() <= usize::MAX,
    ensures
        all_edge_variants_differ_from(edge_one_change_variants(base, init), base),
{
    lemma_edge_prefix_variants_differ(base, init, base.len() as int);
}

/// How many alternatives each step of `base` has.
pub open spec fn edge_alternative_counts(base: Seq<EdgeOperation>) -> spec_fn(int) -> int {
    |i: int| edge_alternatives(base[i]).len() as int
}

proof fn lemma_edge_pair_len(base: Seq<EdgeOperation>, init: StateView, i: int, j: int)
    ensures
        edge_pair_variants(base, init, i, j).len() == edge_alternative_counts(base)(i) * edge_alternative_counts(base)(j),
{
    let ci = edge_alternatives(base[i]).len() as int;
    let cj = edge_alternatives(base[j]).len() as int;
    let rf = |a: int| edge_pair_row(base, init, i, j, a);
    assert(Seq::new(ci as nat, rf) =~= Seq::new(edge_alternatives(base[i]).len(), |a: int| edge_pair_row(base, init, i, j, a)));
    lemma_flatten_len(ci, rf);
    lemma_sum_of_const(ci, block_lens(rf), cj);
}

proof fn lemma_edge_first_step_len(base: Seq<EdgeOperation>, init: StateView, i: int)
    requires
        0 <= i < base.len(),
    ensures
        edge_first_step_variants(base, init, i).len() == pair_terms(base.len() as int, edge_alternative_counts(base))(i),
{
    let n = base.len() as int;
    let c = edge_alternative_counts(base);
    let pf = |d: int| edge_pair_variants(base, init, i, i + 1 + d);
    assert(Seq::new((n - i - 1) as nat, pf) =~= Seq::new(
        (base.len() - i - 1) as nat,
        |d: int| edge_pair_variants(base, init, i, i + 1 + d),
    ));
    lemma_flatten_len(n - i - 1, pf);
    assert forall|d: int| 0 <= d < n - i - 1 implies #[trigger] block_lens(pf)(d) == pair_row_terms(c, i)(d) by {
        lemma_edge_pair_len(base, init, i, i + 1 + d);
    }
    lemma_sum_of_ext(n - i - 1, block_lens(pf), pair_row_terms(c, i));
}

/// The two-step variants number the sum, over all pairs of steps `i < j`, of
/// the alternatives of `i` times the alternatives of `j`.
pub proof fn lemma_edge_two_change_count(base: Seq<EdgeOperation>, init: StateView)
    ensures
        edge_two_change_variants(base, init).len() == pair_product_sum(base.len() as int, edge_alternative_counts(base)),
{
    let n = base.len() as int;
    let c = edge_alternative_counts(base);
    let first = |i: int| edge_first_step_variants(base, init, i);
    assert(Seq::new(n as nat, first) =~= Seq::new(base.len(), |i: int| edge_first_step_variants(base, init, i)));
    lemma_flatten_len(n, first);
    assert forall|i: int| 0 <= i < n implies #[trigger] block_lens(first)(i) == pair_terms(n, c)(i) by {
        lemma_edge_first_step_len(base, init, i);
    }
    lemma_sum_of_ext(n, block_lens(first), pair_terms(n, c));
}

/// The one-step variants number the alternatives of all steps together.
pub proof fn lemma_edge_one_change_count(base: Seq<EdgeOperation>, init: StateView)
    ensures
        edge_one_change_variants(base, init).len() == sum_of(base.len() as int, edge_alternative_counts(base)),
{
    let n = base.len() as int;
    let blocks = |s: int| edge_step_variants(base, init, s);
    assert(Seq::new(n as nat, blocks) =~= Seq::new(base.len(), |s: int| edge_step_variants(base, init, s)));
    lemma_flatten_len(n, blocks);
    lemma_sum_of_ext(n, block_lens(blocks), edge_alternative_counts(base));
}

proof fn lemma_edge_candidates_valid()
    ensures
        edge_ops_valid(edge_swap_candidates()),
        edge_ops_valid(edge_flip_candidates()),
{
}

proof fn lemma_filter_valid(s: Seq<EdgeOperation>, op: EdgeOperation)
    requires
        edge_ops_valid(s),
    ensures
        edge_ops_valid(s.filter(edge_differs(op))),
    decreases s.len(),
{
    reveal_with_fuel(Seq::filter, 1);
    if s.len() > 0 {
        assert(edge_ops_valid(s.drop_last()));
        lemma_filter_valid(s.drop_last(), op);
        assert(s.last().valid());
    }
}

/// Alternatives are valid operations.
pub proof fn lemma_edge_alternatives_valid(op: EdgeOperation)
    ensures
        edge_ops_valid(edge_alternatives(op)),
{
    lemma_edge_candidates_valid();
    match op {
        EdgeOperation::Swap(_) => lemma_filter_valid(edge_swap_candidates(), op),
        EdgeOperation::Flip(_) => lemma_filter_valid(edge_flip_candidates(), op),
    }
}

proof fn lemma_modifiers_keep_valid(base: Seq<EdgeOperation>, mods: Seq<EdgeModifier>)
    requires
        edge_ops_valid(base),
        forall|k: int| 0 <= k < mods.len() ==> (#[trigger] mods[k]).spec_operation().valid(),
    ensures
        edge_ops_valid(apply_edge_modifiers(base, mods)),
    decreases mods.len(),
{
    if mods.len() > 0 {
        lemma_modifiers_keep_valid(base, mods.drop_last());
        lemma_apply_edge_modifiers_len(base, mods.drop_last());
    }
}

proof fn lemma_modifier_for(step: usize, op: EdgeOperation)
    ensures
        edge_modifier_for(step, op).spec_operation() == op,
        edge_modifier_for(step, op).spec_step() == step,
{
}

/// Generates the variants of an edge operation list that differ from it in one
/// or two steps, together with the states they reach.
pub struct NearbyEdgeOperationSearch {
    base_operations: Vec<EdgeOperation>,
}

fn make_edge_modifier(step: usize, op: &EdgeOperation) -> (m: EdgeModifier)
    ensures
        m == edge_modifier_for(step, *op),
{
    match op {
        EdgeOperation::Swap(o) => EdgeModifier::Swap(EdgeSwapModifier { step, modifier: *o }),
        EdgeOperation::Flip(o) => EdgeModifier::Flip(EdgeFlipModifier { step, modifier: *o }),
    }
}

fn generate_edge_alternatives(op: &EdgeOperation) -> (r: Vec<EdgeOperation>)
    ensures
        r@ == edge_alternatives(*op),
{
    let mut r: Vec<EdgeOperation> = Vec::new();
    match op {
        EdgeOperation::Swap(original) => {
            let ghost cands = edge_swap_candidates();
            let mut k: usize = 0;
            while k < 24
                invariant
                    k <= 24,
                    cands == edge_swap_candidates(),
                    *op == EdgeOperation::Swap(*original),
                    r@ == cands.take(k as int).filter(edge_differs(*op)),
                decreases 24 - k,
            {
                proof {
                    reveal_with_fuel(Seq::filter, 1);
                    assert(cands.take(k + 1).drop_last() =~= cands.take(k as int));
                }
                let candidate = EdgeOperation::Swap(EdgeSwapOperation::new(EDGE_BUFFER, k / 2, (k % 2) as u8));
                assert(candidate == cands[k as int]);
                let same = k / 2 == original.target2 && (k % 2) as u8 == original.orientation;
                assert(same == edge_same_choice(candidate, *op));
                if !same {
                    r.push(candidate);
                }
                k = k + 1;
            }
            assert(cands.take(24) =~= cands);
        },
        EdgeOperation::Flip(_) => {
            let ghost cands = edge_flip_candidates();
            let mut k: usize = 0;
            while k < 12
                invariant
                    k <= 12,
                    cands == edge_flip_candidates(),
                    r@ == cands.take(k as int).filter(edge_differs(*op)),
                decreases 12 - k,
            {
                proof {
                    reveal_with_fuel(Seq::filter, 1);
                    assert(cands.take(k + 1).drop_last() =~= cands.take(k as int));
                }
                let candidate = EdgeOperation::Flip(EdgeFlipOperation::new(k));
                assert(candidate == cands[k as int]);
                if candidate != *op {
                    r.push(candidate);
                }
                k = k + 1;
            }
            assert(cands.take(12) =~= cands);
        },
    }
    r
}

fn edge_variant_exec(base: &Vec<EdgeOperation>, mods: Vec<EdgeModifier>, initial: &State) -> (r: (
    ModifiedEdgeSequence,
    State,
))
    requires
        initial@.orientations_valid(),
        edge_ops_valid(base@),
        forall|k: int| 0 <= k < mods@.len() ==> (#[trigger] mods@[k]).spec_operation().valid(),
    ensures
        (r.0@, r.1@) == edge_variant(base@, mods@, initial@),
{
    let modified = ModifiedEdgeSequence { original_sequence: copy_edge_ops(base), modifiers: mods };
    let operations = modified.get_sequence();
    proof { lemma_modifiers_keep_valid(base@, mods@); }
    let final_state = apply_edge_operations(initial, &operations);
    (modified, final_state)
}

impl NearbyEdgeOperationSearch {
    pub closed spec fn base(&self) -> Seq<EdgeOperation> {
        self.base_operations@
    }

    pub fn new(base_operations: Vec<EdgeOperation>) -> (r: Self)
        ensures
            r.base() == base_operations@,
    {
        Self { base_operations }
    }

    /// The operation list that the variants are built from.
    pub fn base_operations(&self) -> (r: &[EdgeOperation])
        ensures
            r@ == self.base(),
    {
        self.base_operations.as_slice()
    }

    /// The display text of a variant; see [`edge_modified_text`].
    pub fn format_variant(modified: &ModifiedEdgeSequence) -> (s: String)
        requires
            edge_list_displayable(modified@.0),
            forall|k: int| 0 <= k < modified@.1.len() ==> edge_op_displayable((#[trigger] modified@.1[k]).spec_operation()),
        ensures
            s@ == edge_modified_text(modified@),
    {
        modified.to_display_string()
    }

    /// Every variant that replaces exactly one step by one of its alternatives,
    /// with the state its operations reach from `initial_state`.
    pub fn explore_variants(&self, initial_state: &State) -> (r: Vec<(ModifiedEdgeSequence, State)>)
        requires
            initial_state@.orientations_valid(),
            edge_ops_valid(self.base()),
        ensures
            edge_variants_view(r@) == edge_one_change_variants(self.base(), initial_state@),
    {
        let ghost base = self.base();
        let ghost init = initial_state@;
        let ghost blocks = |s: int| edge_step_variants(base, init, s);
        let mut variants: Vec<(ModifiedEdgeSequence, State)> = Vec::new();
        let mut step: usize = 0;
        while step < self.base_operations.len()
            invariant
                step <= base.len(),
                base == self.base(),
                init == initial_state@,
                init.orientations_valid(),
                edge_ops_valid(base),
                blocks == (|s: int| edge_step_variants(base, init, s)),
                edge_variants_view(variants@) == Seq::new(step as nat, blocks).flatten_alt(),
            decreases base.len() - step,
        {
            let alternatives = generate_edge_alternatives(&self.base_operations[step]);
            proof { lemma_edge_alternatives_valid(base[step as int]); }
            let ghost prefix = Seq::new(step as nat, blocks).flatten_alt();
            let mut a: usize = 0;
            while a < alternatives.len()
                invariant
                    a <= alternatives@.len(),
                    step < base.len(),
                    base == self.base(),
                    init == initial_state@,
                    init.orientations_valid(),
                    edge_ops_valid(base),
                    alternatives@ == edge_alternatives(base[step as int]),
                    edge_ops_valid(alternatives@),
                    edge_variants_view(variants@) == prefix + edge_step_variants(base, init, step as int).take(a as int),
                decreases alternatives@.len() - a,
            {
                let m = make_edge_modifier(step, &alternatives[a]);
                proof { lemma_modifier_for(step, alternatives@[a as int]); }
                let mods = vec![m];
                assert(mods@ == seq![m]);
                let v = edge_variant_exec(&self.base_operations, mods, initial_state);
                let ghost prev = edge_variants_view(variants@);
                variants.push(v);
                proof {
                    assert(edge_variants_view(variants@) =~= prev.push((v.0@, v.1@)));
                    assert(edge_step_variants(base, init, step as int).take(a + 1) =~= edge_step_variants(
                        base,
                        init,
                        step as int,
                    ).take(a as int).push((v.0@, v.1@)));
                }
                a = a + 1;
            }
            proof {
                assert(edge_step_variants(base, init, step as int).take(a as int) =~= edge_step_variants(
                    base,
                    init,
                    step as int,
                ));
                lemma_flatten_alt_step(blocks, step as int);
            }
            step = step + 1;
        }
        variants
    }

    /// Every variant that replaces two different steps, each by one of its
    /// alternatives, with the state its operations reach from `initial_state`.
    pub fn explore_variants_two_changes(&self, initial_state: &State) -> (r: Vec<(ModifiedEdgeSequence, State)>)
        requires
            initial_state@.orientations_valid(),
            edge_ops_valid(self.base()),
        ensures
            edge_variants_view(r@) == edge_two_change_variants(self.base(), initial_state@),
    {
        let ghost base = self.base();
        let ghost init = initial_state@;
        let n = self.base_operations.len();
        let mut alternatives: Vec<Vec<EdgeOperation>> = Vec::new();
        let mut s: usize = 0;
        while s < n
            invariant
                s <= n,
                n == base.len(),
                base == self.base(),
                alternatives@.len() == s,
                forall|k: int| 0 <= k < s ==> (#[trigger] alternatives@[k])@ == edge_alternatives(base[k]),
            decreases n - s,
        {
            alternatives.push(generate_edge_alternatives(&self.base_operations[s]));
            s = s + 1;
        }
        let ghost rows = |i: int| edge_first_step_variants(base, init, i);
        let mut variants: Vec<(ModifiedEdgeSequence, State)> = Vec::new();
        let mut i: usize = 0;
        while i < n
            invariant
                i <= n,
                n == base.len(),
                base == self.base(),
                init == initial_state@,
                init.orientations_valid(),
                edge_ops_valid(base),
                alternatives@.len() == n,
                forall|k: int| 0 <= k < n ==> (#[trigger] alternatives@[k])@ == edge_alternatives(base[k]),
                rows == (|i: int| edge_first_step_variants(base, init, i)),
                edge_variants_view(variants@) == Seq::new(i as nat, rows).flatten_alt(),
            decreases n - i,
        {
            let ghost prefix_i = Seq::new(i as nat, rows).flatten_alt();
            let ghost pairs = |d: int| edge_pair_variants(base, init, i as int, i + 1 + d);
            let mut j: usize = i + 1;
            while j < n
                invariant
                    i < j <= n,
                    n == base.len(),
                    base == self.base(),
                    init == initial_state@,
                    init.orientations_valid(),
                    edge_ops_valid(base),
                    alternatives@.len() == n,
                    forall|k: int| 0 <= k < n ==> (#[trigger] alternatives@[k])@ == edge_alternatives(base[k]),
                    pairs == (|d: int| edge_pair_variants(base, init, i as int, i + 1 + d)),
                    edge_variants_view(variants@) == prefix_i + Seq::new((j - i - 1) as nat, pairs).flatten_alt(),
                decreases n - j,
            {
                let ghost prefix_j = prefix_i + Seq::new((j - i - 1) as nat, pairs).flatten_alt();
                let ghost alts_i = edge_alternatives(base[i as int]);
                let ghost arows = |a: int| edge_pair_row(base, init, i as int, j as int, a);
                proof {
                    lemma_edge_alternatives_valid(base[i as int]);
                    lemma_edge_alternatives_valid(base[j as int]);
                }
                let mut a: usize = 0;
                while a < alternatives[i].len()
                    invariant
                        i < j < n,
                        a <= alts_i.len(),
                        n == base.len(),
                        base == self.base(),
                        init == initial_state@,
                        init.orientations_valid(),
                        edge_ops_valid(base),
                        alternatives@.len() == n,
                        forall|k: int| 0 <= k < n ==> (#[trigger] alternatives@[k])@ == edge_alternatives(base[k]),
                        alts_i == edge_alternatives(base[i as int]),
                        edge_ops_valid(alts_i),
                        edge_ops_valid(edge_alternatives(base[j as int])),
                        arows == (|a: int| edge_pair_row(base, init, i as int, j as int, a)),
                        edge_variants_view(variants@) == prefix_j + Seq::new(a as nat, arows).flatten_alt(),
                    decreases alts_i.len() - a,
                {
                    let ghost prefix_a = prefix_j + Seq::new(a as nat, arows).flatten_alt();
                    let ghost row = edge_pair_row(base, init, i as int, j as int, a as int);
                    let mut b: usize = 0;
                    while b < alternatives[j].len()
                        invariant
                            i < j < n,
                            a < alts_i.len(),
                            b <= alternatives@[j as int]@.len(),
                            n == base.len(),
                            base == self.base(),
                            init == initial_state@,
                            init.orientations_valid(),
                            edge_ops_valid(base),
                            alternatives@.len() == n,
                            forall|k: int| 0 <= k < n ==> (#[trigger] alternatives@[k])@ == edge_alternatives(base[k]),
                            alts_i == edge_alternatives(base[i as int]),
                            edge_ops_valid(alts_i),
                            edge_ops_valid(edge_alternatives(base[j as int])),
                            row == edge_pair_row(base, init, i as int, j as int, a as int),
                            edge_variants_view(variants@) == prefix_a + row.take(b as int),
                        decreases alternatives@[j as int]@.len() - b,
                    {
                        let mi = make_edge_modifier(i, &alternatives[i][a]);
                        let mj = make_edge_modifier(j, &alternatives[j][b]);
                        proof {
                            lemma_modifier_for(i, alts_i[a as int]);
                            lemma_modifier_for(j, edge_alternatives(base[j as int])[b as int]);
                        }
                        let mods = vec![mi, mj];
                        assert(mods@ == seq![mi, mj]);
                        let v = edge_variant_exec(&self.base_operations, mods, initial_state);
                        let ghost prev = edge_variants_view(variants@);
                        variants.push(v);
                        proof {
                            assert(edge_variants_view(variants@) =~= prev.push((v.0@, v.1@)));
                            assert(row.take(b + 1) =~= row.take(b as int).push((v.0@, v.1@)));
                        }
                        b = b + 1;
                    }
                    proof {
                        assert(row.take(b as int) =~= row);
                        lemma_flatten_alt_step(arows, a as int);
                    }
                    a = a + 1;
                }
                proof {
                    lemma_flatten_alt_step(pairs, (j - i - 1) as int);
                    assert(pairs((j - i - 1) as int) == edge_pair_variants(base, init, i as int, j as int));
                }
                j = j + 1;
            }
            proof {
                lemma_flatten_alt_step(rows, i as int);
                assert(Seq::new((n - i - 1) as nat, pairs) =~= Seq::new((n - i - 1) as nat, |d: int| edge_pair_variants(base, init, i as int, i + 1 + d)));
            }
            i = i + 1;
        }
        variants
    }
}

} // verus!
