use vstd::prelude::*;
use super::modifier::{
    apply_corner_modifiers, copy_corner_ops, corner_modified_text, corner_modifier_for,
    lemma_apply_corner_modifiers_len, CornerModifier, ModifiedSequence, SwapModifier, TwistModifier,
};
use crate::cube::state::{all_below, State, StateView};
use crate::inspection::corner_solver::{
    apply_corner_operations, apply_corner_ops, corner_ops_valid, CornerOperation, CornerSwapOperation,
    CornerTwistOperation, CORNER_BUFFER,
};

use crate::explorer::notation_alternative_generator::lemma_filter_no_duplicates;

verus! {

/// The 24 swaps through the buffer: target slot 0..8, orientation 0..3, in that order.
pub open spec fn corner_swap_candidates() -> Seq<CornerOperation> {
    Seq::new(24, |k: int| CornerOperation::Swap(CornerSwapOperation { target1: CORNER_BUFFER, target2: (k / 3) as usize, orientation: (k % 3) as u8 }))
}

/// The 16 twists: slot 0..8, orientation 1..3, in that order.
pub open spec fn corner_twist_candidates() -> Seq<CornerOperation> {
    Seq::new(16, |k: int| CornerOperation::Twist(CornerTwistOperation { target: (k / 2) as usize, orientation: (k % 2 + 1) as u8 }))
}

/// The replacements tried for an operation: every candidate of the same kind
/// except the operation itself. A swap candidate always starts at the buffer,
/// so it stands for the original swap when it has the same second target and
/// orientation.
pub open spec fn corner_alternatives(op: CornerOperation) -> Seq<CornerOperation> {
    match op {
        CornerOperation::Swap(_) => corner_swap_candidates().filter(corner_differs(op)),
        CornerOperation::Twist(_) => corner_twist_candidates().filter(corner_differs(op)),
    }
}

/// Whether candidate `c` makes the same choice as `op`.
pub open spec fn corner_same_choice(c: CornerOperation, op: CornerOperation) -> bool {
    match (c, op) {
        (CornerOperation::Swap(a), CornerOperation::Swap(b)) => a.target2 == b.target2 && a.orientation == b.orientation,
        _ => c == op,
    }
}

/// The test "makes another choice than `op`".
pub open spec fn corner_differs(op: CornerOperation) -> spec_fn(CornerOperation) -> bool {
    |c: CornerOperation| !corner_same_choice(c, op)
}

/// A variant: the modified list and the state that its operations produce.
pub open spec fn corner_variant(base: Seq<CornerOperation>, mods: Seq<CornerModifier>, init: StateView) -> (
    (Seq<CornerOperation>, Seq<CornerModifier>),
    StateView,
) {
    ((base, mods), apply_corner_ops(init, apply_corner_modifiers(base, mods)))
}

/// The variants that replace step `s` by each of its alternatives.
pub open spec fn corner_step_variants(base: Seq<CornerOperation>, init: StateView, s: int) -> Seq<
    ((Seq<CornerOperation>, Seq<CornerModifier>), StateView),
> {
    corner_alternatives(base[s]).map_values(
        |alt: CornerOperation| corner_variant(base, seq![corner_modifier_for(s as usize, alt)], init),
    )
}

/// All one-step variants, step by step.
pub open spec fn corner_one_change_variants(base: Seq<CornerOperation>, init: StateView) -> Seq<
    ((Seq<CornerOperation>, Seq<CornerModifier>), StateView),
> {
    Seq::new(base.len(), |s: int| corner_step_variants(base, init, s)).flatten_alt()
}

/// The replacements tried for a corner operation: for a swap, exactly the swaps
/// from the buffer to any slot in any of the three orientations that make
/// another choice of slot or orientation; for a twist, exactly the other twists
/// of any slot in direction 1 or 2. Each is tried once.
pub proof fn lemma_corner_alternatives_exact(op: CornerOperation)
    ensures
        forall|c: CornerOperation|
            #[trigger] corner_alternatives(op).contains(c) <==> match (op, c) {
                (CornerOperation::Swap(x), CornerOperation::Swap(y)) => y.target1 == CORNER_BUFFER && y.target2 < 8
                    && y.orientation < 3 && !(y.target2 == x.target2 && y.orientation == x.orientation),
                (CornerOperation::Twist(x), CornerOperation::Twist(y)) => y.target < 8 && 1 <= y.orientation <= 2
                    && y != x,
                _ => false,
            },
        corner_alternatives(op).no_duplicates(),
{
    let cands = corner_candidates(op);
    let p = corner_differs(op);
    let alts = corner_alternatives(op);
    assert(alts == cands.filter(p));
    assert(cands.no_duplicates()) by {
        assert forall|i: int, j: int| 0 <= i < cands.len() && 0 <= j < cands.len() && i != j implies cands[i]
            != cands[j] by {
            assert(i == 3 * (i / 3) + i % 3 && j == 3 * (j / 3) + j % 3);
            assert(i == 2 * (i / 2) + i % 2 && j == 2 * (j / 2) + j % 2);
        }
    }
    lemma_filter_no_duplicates(cands, p);
    assert forall|c: CornerOperation| #[trigger] alts.contains(c) <==> match (op, c) {
        (CornerOperation::Swap(x), CornerOperation::Swap(y)) => y.target1 == CORNER_BUFFER && y.target2 < 8
            && y.orientation < 3 && !(y.target2 == x.target2 && y.orientation == x.orientation),
        (CornerOperation::Twist(x), CornerOperation::Twist(y)) => y.target < 8 && 1 <= y.orientation <= 2 && y != x,
        _ => false,
    } by {
        if alts.contains(c) {
            cands.lemma_filter_contains_rev(p, c);
            let j = choose|j: int| 0 <= j < alts.len() && alts[j] == c;
            cands.lemma_filter_pred(p, j);
        }
        match (op, c) {
            (CornerOperation::Swap(x), CornerOperation::Swap(y)) => {
                if y.target1 == CORNER_BUFFER && y.target2 < 8 && y.orientation < 3 && !(y.target2 == x.target2
                    && y.orientation == x.orientation) {
                    let k: int = 3 * y.target2 + y.orientation;
                    assert(k / 3 == y.target2 && k % 3 == y.orientation);
                    assert(cands[k] == c);
                    cands.lemma_filter_contains(p, k);
                }
            },
            (CornerOperation::Twist(x), CornerOperation::Twist(y)) => {
                if y.target < 8 && 1 <= y.orientation <= 2 && y != x {
                    let k: int = 2 * y.target + y.orientation - 1;
                    assert(k / 2 == y.target && k % 2 == y.orientation - 1);
                    assert(cands[k] == c);
                    cands.lemma_filter_contains(p, k);
                }
            },
            _ => {},
        }
    }
}

/// Every candidate of the same kind as `op`, `op` itself included.
pub open spec fn corner_candidates(op: CornerOperation) -> Seq<CornerOperation> {
    match op {
        CornerOperation::Swap(_) => corner_swap_candidates(),
        CornerOperation::Twist(_) => corner_twist_candidates(),
    }
}

/// The operations a step holding `op` is replaced by: all candidates of its
/// kind when `keep` holds, else its alternatives.
pub open spec fn corner_choices(op: CornerOperation, keep: bool) -> Seq<CornerOperation> {
    if keep {
        corner_candidates(op)
    } else {
        corner_alternatives(op)
    }
}

/// The variants that replace step `i` by its `a`-th choice and step `j` by each of its choices.
pub open spec fn corner_pair_row(base: Seq<CornerOperation>, init: StateView, keep: bool, i: int, j: int, a: int) -> Seq<
    ((Seq<CornerOperation>, Seq<CornerModifier>), StateView),
> {
    corner_choices(base[j], keep).map_values(
        |b: CornerOperation|
            corner_variant(
                base,
                seq![corner_modifier_for(i as usize, corner_choices(base[i], keep)[a]), corner_modifier_for(j as usize, b)],
                init,
            ),
    )
}

/// The variants that replace steps `i` and `j`.
pub open spec fn corner_pair_variants(base: Seq<CornerOperation>, init: StateView, keep: bool, i: int, j: int) -> Seq<
    ((Seq<CornerOperation>, Seq<CornerModifier>), StateView),
> {
    Seq::new(corner_choices(base[i], keep).len(), |a: int| corner_pair_row(base, init, keep, i, j, a)).flatten_alt()
}

/// The variants that replace step `i` and one later step.
pub open spec fn corner_first_step_variants(base: Seq<CornerOperation>, init: StateView, keep: bool, i: int) -> Seq<
    ((Seq<CornerOperation>, Seq<CornerModifier>), StateView),
> {
    Seq::new((base.len() - i - 1) as nat, |d: int| corner_pair_variants(base, init, keep, i, i + 1 + d)).flatten_alt()
}

/// All variants that replace two different steps by their choices (first step
/// ascending, then second step ascending).
pub open spec fn corner_pair_replacements(base: Seq<CornerOperation>, init: StateView, keep: bool) -> Seq<
    ((Seq<CornerOperation>, Seq<CornerModifier>), StateView),
> {
    Seq::new(base.len(), |i: int| corner_first_step_variants(base, init, keep, i)).flatten_alt()
}

/// All variants that replace two different steps, each by one of its alternatives.
pub open spec fn corner_two_change_variants(base: Seq<CornerOperation>, init: StateView) -> Seq<
    ((Seq<CornerOperation>, Seq<CornerModifier>), StateView),
> {
    corner_pair_replacements(base, init, false)
}

/// The view of a list of variants.
pub open spec fn corner_variants_view(v: Seq<(ModifiedSequence, State)>) -> Seq<
    ((Seq<CornerOperation>, Seq<CornerModifier>), StateView),
> {
    v.map_values(|p: (ModifiedSequence, State)| (p.0@, p.1@))
}

/// Flattening one more block appends that block.
pub proof fn lemma_flatten_alt_step<A>(f: spec_fn(int) -> Seq<A>, k: int)
    requires
        0 <= k,
    ensures
        Seq::new((k + 1) as nat, f).flatten_alt() == Seq::new(k as nat, f).flatten_alt() + f(k),
{
    assert(Seq::new((k + 1) as nat, f).drop_last() =~= Seq::new(k as nat, f));
}

/// `g(0) + ... + g(n - 1)`.
pub open spec fn sum_of(n: int, g: spec_fn(int) -> int) -> int
    decreases n,
{
    if n <= 0 {
        0
    } else {
        sum_of(n - 1, g) + g(n - 1)
    }
}

/// The lengths of the blocks `f(k)`.
pub open spec fn block_lens<A>(f: spec_fn(int) -> Seq<A>) -> spec_fn(int) -> int {
    |k: int| f(k).len() as int
}

/// The products `c(i) * c(j)` of `i` with each later `j = i + 1 + d`.
pub open spec fn pair_row_terms(c: spec_fn(int) -> int, i: int) -> spec_fn(int) -> int {
    |d: int| c(i) * c(i + 1 + d)
}

/// For each `i`, the sum of `c(i) * c(j)` over `i < j < n`.
pub open spec fn pair_terms(n: int, c: spec_fn(int) -> int) -> spec_fn(int) -> int {
    |i: int| sum_of(n - i - 1, pair_row_terms(c, i))
}

/// The sum of `c(i) * c(j)` over all pairs `i < j < n`.
pub open spec fn pair_product_sum(n: int, c: spec_fn(int) -> int) -> int {
    sum_of(n, pair_terms(n, c))
}

/// A flattened sequence of blocks is as long as the blocks together.
pub proof fn lemma_flatten_len<A>(n: int, f: spec_fn(int) -> Seq<A>)
    requires
        0 <= n,
    ensures
        Seq::new(n as nat, f).flatten_alt().len() == sum_of(n, block_lens(f)),
    decreases n,
{
    if n == 0 {
        assert(Seq::new(0, f).flatten_alt() =~= Seq::<A>::empty());
    } else {
        lemma_flatten_len(n - 1, f);
        lemma_flatten_alt_step(f, n - 1);
    }
}

/// Sums of terms that agree are equal.
pub proof fn lemma_sum_of_ext(n: int, g1: spec_fn(int) -> int, g2: spec_fn(int) -> int)
    requires
        forall|k: int| 0 <= k < n ==> #[trigger] g1(k) == g2(k),
    ensures
        sum_of(n, g1) == sum_of(n, g2),
    decreases n,
{
    if n > 0 {
        lemma_sum_of_ext(n - 1, g1, g2);
    }
}

/// A sum of `n` equal terms `v` is `n * v`.
pub proof fn lemma_sum_of_const(n: int, g: spec_fn(int) -> int, v: int)
    requires
        0 <= n,
        forall|k: int| 0 <= k < n ==> #[trigger] g(k) == v,
    ensures
        sum_of(n, g) == n * v,
    decreases n,
{
    if n > 0 {
        lemma_sum_of_const(n - 1, g, v);
        assert(g(n - 1) == v);
        assert(sum_of(n, g) == sum_of(n - 1, g) + g(n - 1));
        assert((n - 1) * v + v == n * v) by (nonlinear_arith);
    } else {
        assert(n * v == 0) by (nonlinear_arith)
            requires
                n == 0,
        ;
    }
}

/// Every variant in `vs` has an operation list different from `base`.
pub open spec fn all_differ_from(
    vs: Seq<((Seq<CornerOperation>, Seq<CornerModifier>), StateView)>,
    base: Seq<CornerOperation>,
) -> bool {
    forall|k: int| 0 <= k < vs.len() ==> apply_corner_modifiers((#[trigger] vs[k]).0.0, vs[k].0.1) != base
}

proof fn lemma_step_variants_differ(base: Seq<CornerOperation>, init: StateView, s: int)
    requires
        0 <= s < base.len(),
        base.len() <= usize::MAX,
    ensures
        all_differ_from(corner_step_variants(base, init, s), base),
{
    let alts = corner_alternatives(base[s]);
    let vs = corner_step_variants(base, init, s);
    assert forall|k: int| 0 <= k < vs.len() implies apply_corner_modifiers((#[trigger] vs[k]).0.0, vs[k].0.1) != base by {
        let c = alts[k];
        match base[s] {
            CornerOperation::Swap(_) => corner_swap_candidates().lemma_filter_pred(corner_differs(base[s]), k),
            CornerOperation::Twist(_) => corner_twist_candidates().lemma_filter_pred(corner_differs(base[s]), k),
        }
        assert(c != base[s]);
        let mods = seq![corner_modifier_for(s as usize, c)];
        assert(mods.drop_last() =~= Seq::<CornerModifier>::empty());
        lemma_modifier_for(s as usize, c);
        assert(apply_corner_modifiers(base, mods.drop_last()) == base);
        assert(vs[k].0 == (base, mods));
        assert(apply_corner_modifiers(base, mods) == base.update(s, c));
        assert(apply_corner_modifiers(base, mods)[s] != base[s]);
    }
}

proof fn lemma_prefix_variants_differ(base: Seq<CornerOperation>, init: StateView, n: int)
    requires
        0 <= n <= base.len(),
        base.len() <= usize::MAX,
    ensures
        all_differ_from(Seq::new(n as nat, |s: int| corner_step_variants(base, init, s)).flatten_alt(), base),
    decreases n,
{
    let blocks = |s: int| corner_step_variants(base, init, s);
    if n == 0 {
        assert(Seq::new(0, blocks).flatten_alt() =~= Seq::empty());
    } else {
        lemma_prefix_variants_differ(base, init, n - 1);
        lemma_flatten_alt_step(blocks, n - 1);
        lemma_step_variants_differ(base, init, n - 1);
        let prev = Seq::new((n - 1) as nat, blocks).flatten_alt();
        let next = Seq::new(n as nat, blocks).flatten_alt();
        assert forall|k: int| 0 <= k < next.len() implies apply_corner_modifiers((#[trigger] next[k]).0.0, next[k].0.1) != base by {
            if k < prev.len() {
                assert(next[k] == prev[k]);
            } else {
                assert(next[k] == blocks(n - 1)[k - prev.len()]);
            }
        }
    }
}

/// No one-step variant repeats the base list: each replaces a step by another operation.
pub proof fn lemma_one_change_variants_differ(base: Seq<CornerOperation>, init: StateView)
    requires
        base.len() <= usize::MAX,
    ensures
        all_differ_from(corner_one_change_variants(base, init), base),
{
    lemma_prefix_variants_differ(base, init, base.len() as int);
}

/// How many choices each step of `base` has.
pub open spec fn corner_choice_counts(base: Seq<CornerOperation>, keep: bool) -> spec_fn(int) -> int {
    |i: int| corner_choices(base[i], keep).len() as int
}

proof fn lemma_corner_pair_len(base: Seq<CornerOperation>, init: StateView, keep: bool, i: int, j: int)
    ensures
        corner_pair_variants(base, init, keep, i, j).len() == corner_choice_counts(base, keep)(i)
            * corner_choice_counts(base, keep)(j),
{
    let ci = corner_choices(base[i], keep).len() as int;
    let cj = corner_choices(base[j], keep).len() as int;
    let rf = |a: int| corner_pair_row(base, init, keep, i, j, a);
    assert(Seq::new(ci as nat, rf) =~= Seq::new(
        corner_choices(base[i], keep).len(),
        |a: int| corner_pair_row(base, init, keep, i, j, a),
    ));
    lemma_flatten_len(ci, rf);
    lemma_sum_of_const(ci, block_lens(rf), cj);
}

proof fn lemma_corner_first_step_len(base: Seq<CornerOperation>, init: StateView, keep: bool, i: int)
    requires
        0 <= i < base.len(),
    ensures
        corner_first_step_variants(base, init, keep, i).len() == pair_terms(base.len() as int, corner_choice_counts(base, keep))(i),
{
    let n = base.len() as int;
    let c = corner_choice_counts(base, keep);
    let pf = |d: int| corner_pair_variants(base, init, keep, i, i + 1 + d);
    assert(Seq::new((n - i - 1) as nat, pf) =~= Seq::new(
        (base.len() - i - 1) as nat,
        |d: int| corner_pair_variants(base, init, keep, i, i + 1 + d),
    ));
    lemma_flatten_len(n - i - 1, pf);
    assert forall|d: int| 0 <= d < n - i - 1 implies #[trigger] block_lens(pf)(d) == pair_row_terms(c, i)(d) by {
        lemma_corner_pair_len(base, init, keep, i, i + 1 + d);
    }
    lemma_sum_of_ext(n - i - 1, block_lens(pf), pair_row_terms(c, i));
}

/// The two-step replacements number the sum, over all pairs of steps `i < j`,
/// of the choices of `i` times the choices of `j`.
pub proof fn lemma_pair_replacements_count(base: Seq<CornerOperation>, init: StateView, keep: bool)
    ensures
        corner_pair_replacements(base, init, keep).len() == pair_product_sum(
            base.len() as int,
            corner_choice_counts(base, keep),
        ),
{
    let n = base.len() as int;
    let c = corner_choice_counts(base, keep);
    let first = |i: int| corner_first_step_variants(base, init, keep, i);
    assert(Seq::new(n as nat, first) =~= Seq::new(base.len(), |i: int| corner_first_step_variants(base, init, keep, i)));
    lemma_flatten_len(n, first);
    assert forall|i: int| 0 <= i < n implies #[trigger] block_lens(first)(i) == pair_terms(n, c)(i) by {
        lemma_corner_first_step_len(base, init, keep, i);
    }
    lemma_sum_of_ext(n, block_lens(first), pair_terms(n, c));
}

/// The one-step variants number the choices of all steps together.
pub proof fn lemma_one_change_variants_count(base: Seq<CornerOperation>, init: StateView)
    ensures
        corner_one_change_variants(base, init).len() == sum_of(base.len() as int, corner_choice_counts(base, false)),
{
    let n = base.len() as int;
    let blocks = |s: int| corner_step_variants(base, init, s);
    assert(Seq::new(n as nat, blocks) =~= Seq::new(base.len(), |s: int| corner_step_variants(base, init, s)));
    lemma_flatten_len(n, blocks);
    lemma_sum_of_ext(n, block_lens(blocks), corner_choice_counts(base, false));
}

proof fn lemma_corner_candidates_valid()
    ensures
        corner_ops_valid(corner_swap_candidates()),
        corner_ops_valid(corner_twist_candidates()),
{
}

proof fn lemma_filter_valid(s: Seq<CornerOperation>, op: CornerOperation)
    requires
        corner_ops_valid(s),
    ensures
        corner_ops_valid(s.filter(corner_differs(op))),
    decreases s.len(),
{
    reveal_with_fuel(Seq::filter, 1);
    if s.len() > 0 {
        assert(corner_ops_valid(s.drop_last()));
        lemma_filter_valid(s.drop_last(), op);
        assert(s.last().valid());
    }
}

/// Alternatives are valid operations.
pub proof fn lemma_corner_alternatives_valid(op: CornerOperation)
    ensures
        corner_ops_valid(corner_alternatives(op)),
{
    lemma_corner_candidates_valid();
    match op {
        CornerOperation::Swap(_) => lemma_filter_valid(corner_swap_candidates(), op),
        CornerOperation::Twist(_) => lemma_filter_valid(corner_twist_candidates(), op),
    }
}

/// The choices of a step are valid operations.
pub proof fn lemma_corner_choices_valid(op: CornerOperation, keep: bool)
    ensures
        corner_ops_valid(corner_choices(op, keep)),
{
    lemma_corner_candidates_valid();
    lemma_corner_alternatives_valid(op);
}

proof fn lemma_modifiers_keep_valid(base: Seq<CornerOperation>, mods: Seq<CornerModifier>)
    requires
        corner_ops_valid(base),
        forall|k: int| 0 <= k < mods.len() ==> (#[trigger] mods[k]).spec_operation().valid(),
    ensures
        corner_ops_valid(apply_corner_modifiers(base, mods)),
    decreases mods.len(),
{
    if mods.len() > 0 {
        lemma_modifiers_keep_valid(base, mods.drop_last());
        lemma_apply_corner_modifiers_len(base, mods.drop_last());
    }
}

proof fn lemma_modifier_for(step: usize, op: CornerOperation)
    ensures
        corner_modifier_for(step, op).spec_operation() == op,
        corner_modifier_for(step, op).spec_step() == step,
{
}

/// Generates the variants of a corner operation list that differ from it in one
/// or two steps, together with the states they reach. The initial states it
/// takes have twists below 3: larger twists stand for no cube state.
pub struct NearbyOperationSearch {
    base_operations: Vec<CornerOperation>,
}

fn make_modifier(step: usize, op: &CornerOperation) -> (m: CornerModifier)
    ensures
        m == corner_modifier_for(step, *op),
{
    match op {
        CornerOperation::Swap(o) => CornerModifier::Swap(SwapModifier { step, modifier: *o }),
        CornerOperation::Twist(o) => CornerModifier::Twist(TwistModifier { step, modifier: *o }),
    }
}

fn generate_corner_alternatives(op: &CornerOperation) -> (r: Vec<CornerOperation>)
    ensures
        r@ == corner_alternatives(*op),
{
    let mut r: Vec<CornerOperation> = Vec::new();
    match op {
        CornerOperation::Swap(original) => {
            let ghost cands = corner_swap_candidates();
            let mut k: usize = 0;
            while k < 24
                invariant
                    k <= 24,
                    cands == corner_swap_candidates(),
                    *op == CornerOperation::Swap(*original),
                    r@ == cands.take(k as int).filter(corner_differs(*op)),
                decreases 24 - k,
            {
                proof {
                    reveal_with_fuel(Seq::filter, 1);
                    assert(cands.take(k + 1).drop_last() =~= cands.take(k as int));
                }
                let candidate = CornerOperation::Swap(CornerSwapOperation::new(CORNER_BUFFER, k / 3, (k % 3) as u8));
                assert(candidate == cands[k as int]);
                let same = k / 3 == original.target2 && (k % 3) as u8 == original.orientation;
                assert(same == corner_same_choice(candidate, *op));
                if !same {
                    r.push(candidate);
                }
                k = k + 1;
            }
            assert(cands.take(24) =~= cands);
        },
        CornerOperation::Twist(_) => {
            let ghost cands = corner_twist_candidates();
            let mut k: usize = 0;
            while k < 16
                invariant
                    k <= 16,
                    cands == corner_twist_candidates(),
                    r@ == cands.take(k as int).filter(corner_differs(*op)),
                decreases 16 - k,
            {
                proof {
                    reveal_with_fuel(Seq::filter, 1);
                    assert(cands.take(k + 1).drop_last() =~= cands.take(k as int));
                }
                let candidate = CornerOperation::Twist(CornerTwistOperation::new(k / 2, (k % 2 + 1) as u8));
                assert(candidate == cands[k as int]);
                if candidate != *op {
                    r.push(candidate);
                }
                k = k + 1;
            }
            assert(cands.take(16) =~= cands);
        },
    }
    r
}

fn generate_corner_candidates(op: &CornerOperation) -> (r: Vec<CornerOperation>)
    ensures
        r@ == corner_candidates(*op),
{
    let mut r: Vec<CornerOperation> = Vec::new();
    match op {
        CornerOperation::Swap(_) => {
            let mut k: usize = 0;
            while k < 24
                invariant
                    k <= 24,
                    r@ == corner_swap_candidates().take(k as int),
                decreases 24 - k,
            {
                r.push(CornerOperation::Swap(CornerSwapOperation::new(CORNER_BUFFER, k / 3, (k % 3) as u8)));
                k = k + 1;
                assert(r@ =~= corner_swap_candidates().take(k as int));
            }
            assert(corner_swap_candidates().take(24) =~= corner_swap_candidates());
        },
        CornerOperation::Twist(_) => {
            let mut k: usize = 0;
            while k < 16
                invariant
                    k <= 16,
                    r@ == corner_twist_candidates().take(k as int),
                decreases 16 - k,
            {
                r.push(CornerOperation::Twist(CornerTwistOperation::new(k / 2, (k % 2 + 1) as u8)));
                k = k + 1;
                assert(r@ =~= corner_twist_candidates().take(k as int));
            }
            assert(corner_twist_candidates().take(16) =~= corner_twist_candidates());
        },
    }
    r
}

fn generate_corner_choices(op: &CornerOperation, keep: bool) -> (r: Vec<CornerOperation>)
    ensures
        r@ == corner_choices(*op, keep),
{
    if keep {
        generate_corner_candidates(op)
    } else {
        generate_corner_alternatives(op)
    }
}

fn corner_variant_exec(base: &Vec<CornerOperation>, mods: Vec<CornerModifier>, initial: &State) -> (r: (
    ModifiedSequence,
    State,
))
    requires
        all_below(initial@.co, 3),
        corner_ops_valid(base@),
        forall|k: int| 0 <= k < mods@.len() ==> (#[trigger] mods@[k]).spec_operation().valid(),
    ensures
        (r.0@, r.1@) == corner_variant(base@, mods@, initial@),
{
    let modified = ModifiedSequence { original_sequence: copy_corner_ops(base), modifiers: mods };
    let operations = modified.get_sequence();
    proof { lemma_modifiers_keep_valid(base@, mods@); }
    let final_state = apply_corner_operations(initial, &operations);
    (modified, final_state)
}

impl NearbyOperationSearch {
    pub closed spec fn base(&self) -> Seq<CornerOperation> {
        self.base_operations@
    }

    pub fn new(base_operations: Vec<CornerOperation>) -> (r: Self)
        ensures
            r.base() == base_operations@,
    {
        Self { base_operations }
    }

    /// The operation list that the variants are built from.
    pub fn base_operations(&self) -> (r: &[CornerOperation])
        ensures
            r@ == self.base(),
    {
        self.base_operations.as_slice()
    }

    /// The display text of a variant; see [`corner_modified_text`].
    pub fn format_variant(modified: &ModifiedSequence) -> (s: String)
        ensures
            s@ == corner_modified_text(modified@),
    {
        modified.to_display_string()
    }

    /// Every variant that replaces exactly one step by one of its alternatives,
    /// with the state its operations reach from `initial_state`.
    pub fn explore_variants(&self, initial_state: &State) -> (r: Vec<(ModifiedSequence, State)>)
        requires
            all_below(initial_state@.co, 3),
            corner_ops_valid(self.base()),
        ensures
            corner_variants_view(r@) == corner_one_change_variants(self.base(), initial_state@),
    {
        let ghost base = self.base();
        let ghost init = initial_state@;
        let ghost blocks = |s: int| corner_step_variants(base, init, s);
        let mut variants: Vec<(ModifiedSequence, State)> = Vec::new();
        let mut step: usize = 0;
        while step < self.base_operations.len()
            invariant
                step <= base.len(),
                base == self.base(),
                init == initial_state@,
                all_below(init.co, 3),
                corner_ops_valid(base),
                blocks == (|s: int| corner_step_variants(base, init, s)),
                corner_variants_view(variants@) == Seq::new(step as nat, blocks).flatten_alt(),
            decreases base.len() - step,
        {
            let alternatives = generate_corner_alternatives(&self.base_operations[step]);
            proof { lemma_corner_alternatives_valid(base[step as int]); }
            let ghost prefix = Seq::new(step as nat, blocks).flatten_alt();
            let mut a: usize = 0;
            while a < alternatives.len()
                invariant
                    a <= alternatives@.len(),
                    step < base.len(),
                    base == self.base(),
                    init == initial_state@,
                    all_below(init.co, 3),
                    corner_ops_valid(base),
                    alternatives@ == corner_alternatives(base[step as int]),
                    corner_ops_valid(alternatives@),
                    corner_variants_view(variants@) == prefix + corner_step_variants(base, init, step as int).take(a as int),
                decreases alternatives@.len() - a,
            {
                let m = make_modifier(step, &alternatives[a]);
                proof { lemma_modifier_for(step, alternatives@[a as int]); }
                let mods = vec![m];
                assert(mods@ == seq![m]);
                let v = corner_variant_exec(&self.base_operations, mods, initial_state);
                let ghost prev = corner_variants_view(variants@);
                variants.push(v);
                proof {
                    assert(corner_variants_view(variants@) =~= prev.push((v.0@, v.1@)));
                    assert(corner_step_variants(base, init, step as int).take(a + 1) =~= corner_step_variants(
                        base,
                        init,
                        step as int,
                    ).take(a as int).push((v.0@, v.1@)));
                }
                a = a + 1;
            }
            proof {
                assert(corner_step_variants(base, init, step as int).take(a as int) =~= corner_step_variants(
                    base,
                    init,
                    step as int,
                ));
                lemma_flatten_alt_step(blocks, step as int);
            }
            step = step + 1;
        }
        variants
    }

    /// Every variant that replaces two different steps, each by one of its
    /// alternatives, with the state its operations reach from `initial_state`.
    pub fn explore_variants_two_changes(&self, initial_state: &State) -> (r: Vec<(ModifiedSequence, State)>)
        requires
            all_below(initial_state@.co, 3),
            corner_ops_valid(self.base()),
        ensures
            corner_variants_view(r@) == corner_two_change_variants(self.base(), initial_state@),
    {
        pair_replacement_variants(&self.base_operations, initial_state, false)
    }

    /// Every variant that replaces two different steps, each by any candidate of
    /// its kind (the step's own operation included), with the state its
    /// operations reach from `initial_state`.
    pub fn explore_pair_replacements(&self, initial_state: &State) -> (r: Vec<(ModifiedSequence, State)>)
        requires
            all_below(initial_state@.co, 3),
            corner_ops_valid(self.base()),
        ensures
            corner_variants_view(r@) == corner_pair_replacements(self.base(), initial_state@, true),
    {
        pair_replacement_variants(&self.base_operations, initial_state, true)
    }
}

/// The variants that replace two different steps of `base_operations` by their
/// choices, with the states they reach from `initial_state`.
fn pair_replacement_variants(base_operations: &Vec<CornerOperation>, initial_state: &State, keep: bool) -> (r: Vec<(ModifiedSequence, State)>)
    requires
        all_below(initial_state@.co, 3),
        corner_ops_valid(base_operations@),
    ensures
        corner_variants_view(r@) == corner_pair_replacements(base_operations@, initial_state@, keep),
{
    let ghost base = base_operations@;
    let ghost init = initial_state@;
    let n = base_operations.len();
    let mut choices: Vec<Vec<CornerOperation>> = Vec::new();
    let mut s: usize = 0;
    while s < n
        invariant
            s <= n,
            n == base.len(),
            base == base_operations@,
            choices@.len() == s,
            forall|k: int| 0 <= k < s ==> (#[trigger] choices@[k])@ == corner_choices(base[k], keep),
        decreases n - s,
    {
        choices.push(generate_corner_choices(&base_operations[s], keep));
        s = s + 1;
    }
    let ghost rows = |i: int| corner_first_step_variants(base, init, keep, i);
    let mut variants: Vec<(ModifiedSequence, State)> = Vec::new();
    let mut i: usize = 0;
    while i < n
        invariant
            i <= n,
            n == base.len(),
            base == base_operations@,
            init == initial_state@,
            all_below(init.co, 3),
            corner_ops_valid(base),
            choices@.len() == n,
            forall|k: int| 0 <= k < n ==> (#[trigger] choices@[k])@ == corner_choices(base[k], keep),
            rows == (|i: int| corner_first_step_variants(base, init, keep, i)),
            corner_variants_view(variants@) == Seq::new(i as nat, rows).flatten_alt(),
        decreases n - i,
    {
        let ghost prefix_i = Seq::new(i as nat, rows).flatten_alt();
        let ghost pairs = |d: int| corner_pair_variants(base, init, keep, i as int, i + 1 + d);
        let mut j: usize = i + 1;
        while j < n
            invariant
                i < j <= n,
                n == base.len(),
                base == base_operations@,
                init == initial_state@,
                all_below(init.co, 3),
                corner_ops_valid(base),
                choices@.len() == n,
                forall|k: int| 0 <= k < n ==> (#[trigger] choices@[k])@ == corner_choices(base[k], keep),
                pairs == (|d: int| corner_pair_variants(base, init, keep, i as int, i + 1 + d)),
                corner_variants_view(variants@) == prefix_i + Seq::new((j - i - 1) as nat, pairs).flatten_alt(),
            decreases n - j,
        {
            let ghost prefix_j = prefix_i + Seq::new((j - i - 1) as nat, pairs).flatten_alt();
            let ghost alts_i = corner_choices(base[i as int], keep);
            let ghost arows = |a: int| corner_pair_row(base, init, keep, i as int, j as int, a);
            proof {
                lemma_corner_choices_valid(base[i as int], keep);
                lemma_corner_choices_valid(base[j as int], keep);
            }
            let mut a: usize = 0;
            while a < choices[i].len()
                invariant
                    i < j < n,
                    a <= alts_i.len(),
                    n == base.len(),
                    base == base_operations@,
                    init == initial_state@,
                    all_below(init.co, 3),
                    corner_ops_valid(base),
                    choices@.len() == n,
                    forall|k: int| 0 <= k < n ==> (#[trigger] choices@[k])@ == corner_choices(base[k], keep),
                    alts_i == corner_choices(base[i as int], keep),
                    corner_ops_valid(alts_i),
                    corner_ops_valid(corner_choices(base[j as int], keep)),
                    arows == (|a: int| corner_pair_row(base, init, keep, i as int, j as int, a)),
                    corner_variants_view(variants@) == prefix_j + Seq::new(a as nat, arows).flatten_alt(),
                decreases alts_i.len() - a,
            {
                let ghost prefix_a = prefix_j + Seq::new(a as nat, arows).flatten_alt();
                let ghost row = corner_pair_row(base, init, keep, i as int, j as int, a as int);
                let mut b: usize = 0;
                while b < choices[j].len()
                    invariant
                        i < j < n,
                        a < alts_i.len(),
                        b <= choices@[j as int]@.len(),
                        n == base.len(),
                        base == base_operations@,
                        init == initial_state@,
                        all_below(init.co, 3),
                        corner_ops_valid(base),
                        choices@.len() == n,
                        forall|k: int| 0 <= k < n ==> (#[trigger] choices@[k])@ == corner_choices(base[k], keep),
                        alts_i == corner_choices(base[i as int], keep),
                        corner_ops_valid(alts_i),
                        corner_ops_valid(corner_choices(base[j as int], keep)),
                        row == corner_pair_row(base, init, keep, i as int, j as int, a as int),
                        corner_variants_view(variants@) == prefix_a + row.take(b as int),
                    decreases choices@[j as int]@.len() - b,
                {
                    let mi = make_modifier(i, &choices[i][a]);
                    let mj = make_modifier(j, &choices[j][b]);
                    proof {
                        lemma_modifier_for(i, alts_i[a as int]);
                        lemma_modifier_for(j, corner_choices(base[j as int], keep)[b as int]);
                    }
                    let mods = vec![mi, mj];
                    assert(mods@ == seq![mi, mj]);
                    let v = corner_variant_exec(base_operations, mods, initial_state);
                    let ghost prev = corner_variants_view(variants@);
                    variants.push(v);
                    proof {
                        assert(corner_variants_view(variants@) =~= prev.push((v.0@, v.1@)));
                        assert(row.take(b + 1) =~= row.take(b as int).push((v.0@, v.1@)));
                    }
                    b = b + 1;
                }
                proof {
                    assert(row.take(b as int) =~= row);
                    lemma_flatten_alt_step(arows, a as int);
                }
                a = a + 1;
            }
            proof {
                lemma_flatten_alt_step(pairs, (j - i - 1) as int);
                assert(pairs((j - i - 1) as int) == corner_pair_variants(base, init, keep, i as int, j as int));
            }
            j = j + 1;
        }
        proof {
            lemma_flatten_alt_step(rows, i as int);
            assert(Seq::new((n - i - 1) as nat, pairs) =~= Seq::new((n - i - 1) as nat, |d: int| corner_pair_variants(base, init, keep, i as int, i + 1 + d)));
        }
        i = i + 1;
    }
    variants
}

} // verus!
