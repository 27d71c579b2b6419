//! Nearby search over lists that mix corner and edge operations, with
//! replacement candidates supplied by pluggable generators.
use vstd::prelude::*;
use super::mixed_modifier::{
    apply_mixed_modifiers, lemma_apply_mixed_modifiers_len, mixed_modifier_for, MixedCornerSwapModifier,
    MixedCornerTwistModifier, MixedEdgeFlipModifier, MixedEdgeSwapModifier, MixedModifier, ModifiedMixedSequence,
};
use super::nearby_search::{
    block_lens, lemma_flatten_alt_step, lemma_flatten_len, lemma_sum_of_const, lemma_sum_of_ext, pair_product_sum,
    pair_row_terms, pair_terms, sum_of,
};
use crate::cube::state::{State, StateView};
use crate::inspection::corner_solver::{
    corner_op_text, corner_swap_view, corner_twist_view, lemma_corner_op_keeps_orientations, CornerOperation,
    CornerSwapOperation, CornerTwistOperation,
};
use crate::inspection::edge_solver::{
    edge_flip_view, edge_op_text, edge_swap_view, lemma_edge_op_keeps_orientations, EdgeFlipOperation, EdgeOperation,
    EdgeSwapOperation,
};

verus! {

/// One operation of a mixed list.
#[derive(Debug, Clone, Copy, PartialEq, Eq, Structural)]
pub enum MixedOperation {
    CornerSwap(CornerSwapOperation),
    CornerTwist(CornerTwistOperation),
    EdgeSwap(EdgeSwapOperation),
    EdgeFlip(EdgeFlipOperation),
}

impl MixedOperation {
    /// Slots and orientation values in range.
    pub open spec fn valid(self) -> bool {
        match self {
            MixedOperation::CornerSwap(o) => o.valid(),
            MixedOperation::CornerTwist(o) => o.valid(),
            MixedOperation::EdgeSwap(o) => o.valid(),
            MixedOperation::EdgeFlip(o) => o.valid(),
        }
    }
}

/// The effect of a mixed operation: that of the corner or edge operation it holds.
pub open spec fn mixed_op_view(s: StateView, op: MixedOperation) -> StateView {
    match op {
        MixedOperation::CornerSwap(o) => corner_swap_view(s, o),
        MixedOperation::CornerTwist(o) => corner_twist_view(s, o),
        MixedOperation::EdgeSwap(o) => edge_swap_view(s, o),
        MixedOperation::EdgeFlip(o) => edge_flip_view(s, o),
    }
}

/// The state after the operations, in order.
pub open spec fn apply_mixed_ops(s: StateView, ops: Seq<MixedOperation>) -> StateView
    decreases ops.len(),
{
    if ops.len() == 0 {
        s
    } else {
        mixed_op_view(apply_mixed_ops(s, ops.drop_last()), ops.last())
    }
}

/// Every operation of the list is valid.
pub open spec fn mixed_ops_valid(ops: Seq<MixedOperation>) -> bool {
    forall|i: int| 0 <= i < ops.len() ==> (#[trigger] ops[i]).valid()
}

/// The display text of a mixed operation: that of the operation it holds.
pub open spec fn mixed_op_text(op: MixedOperation) -> Seq<char> {
    match op {
        MixedOperation::CornerSwap(o) => corner_op_text(CornerOperation::Swap(o)),
        MixedOperation::CornerTwist(o) => corner_op_text(CornerOperation::Twist(o)),
        MixedOperation::EdgeSwap(o) => edge_op_text(EdgeOperation::Swap(o)),
        MixedOperation::EdgeFlip(o) => edge_op_text(EdgeOperation::Flip(o)),
    }
}

/// A valid operation applies to a state with orientations in range and keeps them in range.
pub proof fn lemma_mixed_op_keeps_orientations(s: StateView, op: MixedOperation)
    requires
        s.orientations_valid(),
        s.co.len() == 8,
        s.cp.len() == 8,
        s.eo.len() == 12,
        s.ep.len() == 12,
        op.valid(),
    ensures
        mixed_op_view(s, op).orientations_valid(),
        mixed_op_view(s, op).co.len() == 8,
        mixed_op_view(s, op).cp.len() == 8,
        mixed_op_view(s, op).eo.len() == 12,
        mixed_op_view(s, op).ep.len() == 12,
        op.applicable(s),
{
    match op {
        MixedOperation::CornerSwap(o) => lemma_corner_op_keeps_orientations(s, CornerOperation::Swap(o)),
        MixedOperation::CornerTwist(o) => lemma_corner_op_keeps_orientations(s, CornerOperation::Twist(o)),
        MixedOperation::EdgeSwap(o) => lemma_edge_op_keeps_orientations(s, EdgeOperation::Swap(o)),
        MixedOperation::EdgeFlip(o) => lemma_edge_op_keeps_orientations(s, EdgeOperation::Flip(o)),
    }
}

impl MixedOperation {
    /// The operation's applicability condition on a state.
    pub open spec fn applicable(self, s: StateView) -> bool {
        match self {
            MixedOperation::CornerSwap(o) => CornerOperation::Swap(o).applicable(s),
            MixedOperation::CornerTwist(o) => CornerOperation::Twist(o).applicable(s),
            MixedOperation::EdgeSwap(o) => EdgeOperation::Swap(o).applicable(s),
            MixedOperation::EdgeFlip(o) => EdgeOperation::Flip(o).applicable(s),
        }
    }

    pub fn to_display_string(&self) -> (s: String)
        requires
            self.valid(),
        ensures
            s@ == mixed_op_text(*self),
    {
        match self {
            MixedOperation::CornerSwap(o) => o.to_display_string(),
            MixedOperation::CornerTwist(o) => o.to_display_string(),
            MixedOperation::EdgeSwap(o) => o.to_display_string(),
            MixedOperation::EdgeFlip(o) => o.to_display_string(),
        }
    }
}

/// Something that can be performed on a cube state.
pub trait ApplyableToState {
    /// When the value can be performed on `s`.
    spec fn can_apply(&self, s: StateView) -> bool;

    /// The state that performing the value on `s` gives.
    spec fn applied(&self, s: StateView) -> StateView;

    fn apply_to_state(&self, state: &State) -> (r: State)
        requires
            self.can_apply(state@),
        ensures
            r@ == self.applied(state@),
    ;
}

impl ApplyableToState for MixedOperation {
    open spec fn can_apply(&self, s: StateView) -> bool {
        self.applicable(s)
    }

    open spec fn applied(&self, s: StateView) -> StateView {
        mixed_op_view(s, *self)
    }

    fn apply_to_state(&self, state: &State) -> (r: State) {
        match self {
            MixedOperation::CornerSwap(op) => op.apply(state),
            MixedOperation::CornerTwist(op) => op.apply(state),
            MixedOperation::EdgeSwap(op) => op.apply(state),
            MixedOperation::EdgeFlip(op) => op.apply(state),
        }
    }
}

/// A source of replacement candidates for an operation.
pub trait AlternativeGenerator<T> {
    /// The candidates offered for `operation`, in order.
    spec fn spec_alternatives(&self, operation: T) -> Seq<T>;

    fn generate_alternatives(&self, operation: &T) -> (r: Vec<T>)
        ensures
            r@ == self.spec_alternatives(*operation),
    ;
}

/// The candidates of all generators for `op`, generator by generator.
pub open spec fn generated_alternatives<G: AlternativeGenerator<MixedOperation> + ?Sized>(
    gens: Seq<Box<G>>,
    op: MixedOperation,
) -> Seq<MixedOperation>
    decreases gens.len(),
{
    if gens.len() == 0 {
        Seq::empty()
    } else {
        generated_alternatives(gens.drop_last(), op) + gens.last().spec_alternatives(op)
    }
}

/// A variant: the modified list and the state that its operations produce.
pub open spec fn mixed_variant(base: Seq<MixedOperation>, mods: Seq<MixedModifier>, init: StateView) -> (
    (Seq<MixedOperation>, Seq<MixedModifier>),
    StateView,
) {
    ((base, mods), apply_mixed_ops(init, apply_mixed_modifiers(base, mods)))
}

/// The variants that replace step `s` by each of `alts(s)`.
pub open spec fn mixed_step_variants(
    base: Seq<MixedOperation>,
    alts: spec_fn(int) -> Seq<MixedOperation>,
    init: StateView,
    s: int,
) -> Seq<((Seq<MixedOperation>, Seq<MixedModifier>), StateView)> {
    alts(s).map_values(|alt: MixedOperation| mixed_variant(base, seq![mixed_modifier_for(s as usize, alt)], init))
}

/// All one-step variants, step by step.
pub open spec fn mixed_one_change_variants(
    base: Seq<MixedOperation>,
    alts: spec_fn(int) -> Seq<MixedOperation>,
    init: StateView,
) -> Seq<((Seq<MixedOperation>, Seq<MixedModifier>), StateView)> {
    Seq::new(base.len(), |s: int| mixed_step_variants(base, alts, init, s)).flatten_alt()
}

/// The variants that replace step `i` by its `a`-th candidate and step `j` by each of its candidates.
pub open spec fn mixed_pair_row(
    base: Seq<MixedOperation>,
    alts: spec_fn(int) -> Seq<MixedOperation>,
    init: StateView,
    i: int,
    j: int,
    a: int,
) -> Seq<((Seq<MixedOperation>, Seq<MixedModifier>), StateView)> {
    alts(j).map_values(
        |b: MixedOperation|
            mixed_variant(base, seq![mixed_modifier_for(i as usize, alts(i)[a]), mixed_modifier_for(j as usize, b)], init),
    )
}

/// The variants that replace steps `i` and `j`.
pub open spec fn mixed_pair_variants(
    base: Seq<MixedOperation>,
    alts: spec_fn(int) -> Seq<MixedOperation>,
    init: StateView,
    i: int,
    j: int,
) -> Seq<((Seq<MixedOperation>, Seq<MixedModifier>), StateView)> {
    Seq::new(alts(i).len(), |a: int| mixed_pair_row(base, alts, init, i, j, a)).flatten_alt()
}

/// The variants that replace step `i` and one later step.
pub open spec fn mixed_first_step_variants(
    base: Seq<MixedOperation>,
    alts: spec_fn(int) -> Seq<MixedOperation>,
    init: StateView,
    i: int,
) -> Seq<((Seq<MixedOperation>, Seq<MixedModifier>), StateView)> {
    Seq::new((base.len() - i - 1) as nat, |d: int| mixed_pair_variants(base, alts, init, i, i + 1 + d)).flatten_alt()
}

/// All variants that replace two different steps (first step ascending, then second step ascending).
pub open spec fn mixed_pair_change_variants(
    base: Seq<MixedOperation>,
    alts: spec_fn(int) -> Seq<MixedOperation>,
    init: StateView,
) -> Seq<((Seq<MixedOperation>, Seq<MixedModifier>), StateView)> {
    Seq::new(base.len(), |i: int| mixed_first_step_variants(base, alts, init, i)).flatten_alt()
}

/// The view of a list of variants.
pub open spec fn mixed_variants_view(v: Seq<(ModifiedMixedSequence, State)>) -> Seq<
    ((Seq<MixedOperation>, Seq<MixedModifier>), StateView),
> {
    v.map_values(|p: (ModifiedMixedSequence, State)| (p.0@, p.1@))
}

/// How many candidates each step has.
pub open spec fn mixed_candidate_counts(alts: spec_fn(int) -> Seq<MixedOperation>) -> spec_fn(int) -> int {
    |i: int| alts(i).len() as int
}

proof fn lemma_mixed_pair_len(
    base: Seq<MixedOperation>,
    alts: spec_fn(int) -> Seq<MixedOperation>,
    init: StateView,
    i: int,
    j: int,
)
    ensures
        mixed_pair_variants(base, alts, init, i, j).len() == mixed_candidate_counts(alts)(i) * mixed_candidate_counts(alts)(j),
{
    let ci = alts(i).len() as int;
    let cj = alts(j).len() as int;
    let rf = |a: int| mixed_pair_row(base, alts, init, i, j, a);
    assert(Seq::new(ci as nat, rf) =~= Seq::new(alts(i).len(), |a: int| mixed_pair_row(base, alts, init, i, j, a)));
    lemma_flatten_len(ci, rf);
    lemma_sum_of_const(ci, block_lens(rf), cj);
}

proof fn lemma_mixed_first_step_len(
    base: Seq<MixedOperation>,
    alts: spec_fn(int) -> Seq<MixedOperation>,
    init: StateView,
    i: int,
)
    requires
        0 <= i < base.len(),
    ensures
        mixed_first_step_variants(base, alts, init, i).len() == pair_terms(base.len() as int, mixed_candidate_counts(alts))(i),
{
    let n = base.len() as int;
    let c = mixed_candidate_counts(alts);
    let pf = |d: int| mixed_pair_variants(base, alts, init, i, i + 1 + d);
    assert(Seq::new((n - i - 1) as nat, pf) =~= Seq::new(
        (base.len() - i - 1) as nat,
        |d: int| mixed_pair_variants(base, alts, init, i, i + 1 + d),
    ));
    lemma_flatten_len(n - i - 1, pf);
    assert forall|d: int| 0 <= d < n - i - 1 implies #[trigger] block_lens(pf)(d) == pair_row_terms(c, i)(d) by {
        lemma_mixed_pair_len(base, alts, init, i, i + 1 + d);
    }
    lemma_sum_of_ext(n - i - 1, block_lens(pf), pair_row_terms(c, i));
}

/// The variants of the mixed search number the candidates of all steps (one
/// step changed) plus, over all pairs of steps `i < j`, the candidates of `i`
/// times those of `j` (two steps changed).
pub proof fn lemma_mixed_variants_count(
    base: Seq<MixedOperation>,
    alts: spec_fn(int) -> Seq<MixedOperation>,
    init: StateView,
)
    ensures
        mixed_one_change_variants(base, alts, init).len() == sum_of(base.len() as int, mixed_candidate_counts(alts)),
        mixed_pair_change_variants(base, alts, init).len() == pair_product_sum(
            base.len() as int,
            mixed_candidate_counts(alts),
        ),
        (mixed_one_change_variants(base, alts, init) + mixed_pair_change_variants(base, alts, init)).len() == sum_of(
            base.len() as int,
            mixed_candidate_counts(alts),
        ) + pair_product_sum(base.len() as int, mixed_candidate_counts(alts)),
{
    let n = base.len() as int;
    let c = mixed_candidate_counts(alts);
    let blocks = |s: int| mixed_step_variants(base, alts, init, s);
    assert(Seq::new(n as nat, blocks) =~= Seq::new(base.len(), |s: int| mixed_step_variants(base, alts, init, s)));
    lemma_flatten_len(n, blocks);
    lemma_sum_of_ext(n, block_lens(blocks), c);
    let first = |i: int| mixed_first_step_variants(base, alts, init, i);
    assert(Seq::new(n as nat, first) =~= Seq::new(base.len(), |i: int| mixed_first_step_variants(base, alts, init, i)));
    lemma_flatten_len(n, first);
    assert forall|i: int| 0 <= i < n implies #[trigger] block_lens(first)(i) == pair_terms(n, c)(i) by {
        lemma_mixed_first_step_len(base, alts, init, i);
    }
    lemma_sum_of_ext(n, block_lens(first), pair_terms(n, c));
}

proof fn lemma_modifiers_keep_valid(base: Seq<MixedOperation>, mods: Seq<MixedModifier>)
    requires
        mixed_ops_valid(base),
        forall|k: int| 0 <= k < mods.len() ==> (#[trigger] mods[k]).spec_operation().valid(),
    ensures
        mixed_ops_valid(apply_mixed_modifiers(base, mods)),
    decreases mods.len(),
{
    if mods.len() > 0 {
        lemma_modifiers_keep_valid(base, mods.drop_last());
        lemma_apply_mixed_modifiers_len(base, mods.drop_last());
    }
}

/// Applies a list of valid mixed operations in order.
pub fn apply_mixed_operations(state: &State, ops: &Vec<MixedOperation>) -> (r: State)
    requires
        state@.orientations_valid(),
        mixed_ops_valid(ops@),
    ensures
        r@ == apply_mixed_ops(state@, ops@),
{
    let mut r = *state;
    let mut i: usize = 0;
    while i < ops.len()
        invariant
            i <= ops.len(),
            mixed_ops_valid(ops@),
            r@ == apply_mixed_ops(state@, ops@.take(i as int)),
            r@.orientations_valid(),
        decreases ops.len() - i,
    {
        assert(ops@.take(i + 1).drop_last() =~= ops@.take(i as int));
        assert(ops@[i as int].valid());
        proof {
            lemma_mixed_op_keeps_orientations(r@, ops@[i as int]);
        }
        r = ops[i].apply_to_state(&r);
        i = i + 1;
    }
    assert(ops@.take(ops.len() as int) =~= ops@);
    r
}

fn make_modifier(step: usize, op: &MixedOperation) -> (m: MixedModifier)
    ensures
        m == mixed_modifier_for(step, *op),
{
    match op {
        MixedOperation::CornerSwap(o) => MixedModifier::CornerSwap(MixedCornerSwapModifier { step, modifier: *o }),
        MixedOperation::CornerTwist(o) => MixedModifier::CornerTwist(MixedCornerTwistModifier { step, modifier: *o }),
        MixedOperation::EdgeSwap(o) => MixedModifier::EdgeSwap(MixedEdgeSwapModifier { step, modifier: *o }),
        MixedOperation::EdgeFlip(o) => MixedModifier::EdgeFlip(MixedEdgeFlipModifier { step, modifier: *o }),
    }
}

fn copy_mixed_ops(v: &Vec<MixedOperation>) -> (r: Vec<MixedOperation>)
    ensures
        r@ == v@,
{
    let mut r: Vec<MixedOperation> = Vec::new();
    let mut i: usize = 0;
    while i < v.len()
        invariant
            i <= v.len(),
            r@ == v@.take(i as int),
        decreases v.len() - i,
    {
        r.push(v[i]);
        i = i + 1;
        assert(r@ =~= v@.take(i as int));
    }
    assert(v@.take(v.len() as int) =~= v@);
    r
}

fn mixed_variant_exec(base: &Vec<MixedOperation>, mods: Vec<MixedModifier>, initial: &State) -> (r: (
    ModifiedMixedSequence,
    State,
))
    requires
        initial@.orientations_valid(),
        mixed_ops_valid(base@),
        forall|k: int| 0 <= k < mods@.len() ==> (#[trigger] mods@[k]).spec_operation().valid(),
    ensures
        (r.0@, r.1@) == mixed_variant(base@, mods@, initial@),
{
    let modified = ModifiedMixedSequence { original_sequence: copy_mixed_ops(base), modifiers: mods };
    let operations = modified.get_sequence();
    proof {
        lemma_modifiers_keep_valid(base@, mods@);
    }
    let final_state = apply_mixed_operations(initial, &operations);
    (modified, final_state)
}

/// Generates variants of a mixed operation list that differ from it in one or
/// two steps, each replaced step taking a candidate of the generators.
pub struct NearbyMixedOperationSearch<G: AlternativeGenerator<MixedOperation> + ?Sized> {
    base_operations: Vec<MixedOperation>,
    alternative_generators: Vec<Box<G>>,
}

impl<G: AlternativeGenerator<MixedOperation> + ?Sized> NearbyMixedOperationSearch<G> {
    pub closed spec fn base(&self) -> Seq<MixedOperation> {
        self.base_operations@
    }

    pub closed spec fn generators(&self) -> Seq<Box<G>> {
        self.alternative_generators@
    }

    /// The candidates for each step of the base list.
    pub open spec fn step_alternatives(&self) -> spec_fn(int) -> Seq<MixedOperation> {
        |s: int| generated_alternatives(self.generators(), self.base()[s])
    }

    /// The base list is valid and so is every candidate for each of its steps.
    pub open spec fn well_formed(&self) -> bool {
        &&& mixed_ops_valid(self.base())
        &&& forall|s: int| 0 <= s < self.base().len() ==> mixed_ops_valid(#[trigger] (self.step_alternatives())(s))
    }

    /// A search with no generators.
    pub fn new(base_operations: Vec<MixedOperation>) -> (r: Self)
        ensures
            r.base() == base_operations@,
            r.generators() == Seq::<Box<G>>::empty(),
    {
        Self { base_operations, alternative_generators: Vec::new() }
    }

    pub fn add_alternative_generator(&mut self, generator: Box<G>)
        ensures
            final(self).base() == old(self).base(),
            final(self).generators() == old(self).generators().push(generator),
    {
        self.alternative_generators.push(generator);
    }

    pub fn with_alternative_generators(
        base_operations: Vec<MixedOperation>,
        generators: Vec<Box<G>>,
    ) -> (r: Self)
        ensures
            r.base() == base_operations@,
            r.generators() == generators@,
    {
        Self { base_operations, alternative_generators: generators }
    }

    /// The candidates of all generators for `operation`, generator by generator.
    fn get_alternative_operations(&self, operation: &MixedOperation) -> (r: Vec<MixedOperation>)
        ensures
            r@ == generated_alternatives(self.generators(), *operation),
    {
        let ghost gens = self.generators();
        let mut r: Vec<MixedOperation> = Vec::new();
        let mut g: usize = 0;
        while g < self.alternative_generators.len()
            invariant
                g <= gens.len(),
                gens == self.generators(),
                r@ == generated_alternatives(gens.take(g as int), *operation),
            decreases gens.len() - g,
        {
            assert(gens.take(g + 1).drop_last() =~= gens.take(g as int));
            let more = self.alternative_generators[g].generate_alternatives(operation);
            let ghost before = r@;
            let mut k: usize = 0;
            while k < more.len()
                invariant
                    k <= more.len(),
                    r@ == before + more@.take(k as int),
                decreases more.len() - k,
            {
                r.push(more[k]);
                k = k + 1;
                assert(r@ =~= before + more@.take(k as int));
            }
            assert(more@.take(more.len() as int) =~= more@);
            g = g + 1;
        }
        assert(gens.take(gens.len() as int) =~= gens);
        r
    }

    fn push_one_change_variants(&self, initial_state: &State, variants: &mut Vec<(ModifiedMixedSequence, State)>)
        requires
            initial_state@.orientations_valid(),
            self.well_formed(),
        ensures
            mixed_variants_view(final(variants)@) == mixed_variants_view(old(variants)@) + mixed_one_change_variants(
                self.base(),
                self.step_alternatives(),
                initial_state@,
            ),
    {
        let ghost base = self.base();
        let ghost alts = self.step_alternatives();
        let ghost init = initial_state@;
        let ghost start = mixed_variants_view(variants@);
        let ghost blocks = |s: int| mixed_step_variants(base, alts, init, s);
        let mut step: usize = 0;
        while step < self.base_operations.len()
            invariant
                step <= base.len(),
                base == self.base(),
                alts == self.step_alternatives(),
                init == initial_state@,
                init.orientations_valid(),
                self.well_formed(),
                blocks == (|s: int| mixed_step_variants(base, alts, init, s)),
                mixed_variants_view(variants@) == start + Seq::new(step as nat, blocks).flatten_alt(),
            decreases base.len() - step,
        {
            let alternatives = self.get_alternative_operations(&self.base_operations[step]);
            assert(alternatives@ == alts(step as int));
            assert(mixed_ops_valid(alts(step as int)));
            let ghost prefix = start + Seq::new(step as nat, blocks).flatten_alt();
            let mut a: usize = 0;
            while a < alternatives.len()
                invariant
                    a <= alternatives@.len(),
                    step < base.len(),
                    base == self.base(),
                    init == initial_state@,
                    init.orientations_valid(),
                    mixed_ops_valid(base),
                    alternatives@ == alts(step as int),
                    mixed_ops_valid(alternatives@),
                    mixed_variants_view(variants@) == prefix + mixed_step_variants(base, alts, init, step as int).take(
                        a as int,
                    ),
                decreases alternatives@.len() - a,
            {
                let m = make_modifier(step, &alternatives[a]);
                assert(alternatives@[a as int].valid());
                let mods = vec![m];
                assert(mods@ == seq![m]);
                let v = mixed_variant_exec(&self.base_operations, mods, initial_state);
                let ghost prev = mixed_variants_view(variants@);
                variants.push(v);
                proof {
                    assert(mixed_variants_view(variants@) =~= prev.push((v.0@, v.1@)));
                    assert(mixed_step_variants(base, alts, init, step as int).take(a + 1) =~= mixed_step_variants(
                        base,
                        alts,
                        init,
                        step as int,
                    ).take(a as int).push((v.0@, v.1@)));
                }
                a = a + 1;
            }
            proof {
                assert(mixed_step_variants(base, alts, init, step as int).take(a as int) =~= mixed_step_variants(
                    base,
                    alts,
                    init,
                    step as int,
                ));
                lemma_flatten_alt_step(blocks, step as int);
                assert(start + Seq::new(step as nat, blocks).flatten_alt() + blocks(step as int) =~= start + (Seq::new(
                    step as nat,
                    blocks,
                ).flatten_alt() + blocks(step as int)));
            }
            step = step + 1;
        }
        proof {
            assert(Seq::new(base.len(), blocks) =~= Seq::new(
                base.len(),
                |s: int| mixed_step_variants(base, alts, init, s),
            ));
        }
    }

    /// Every variant that replaces exactly one step by one of its candidates,
    /// with the state its operations reach from `initial_state`.
    pub fn explore_variants_one_change(&self, initial_state: &State) -> (r: Vec<(ModifiedMixedSequence, State)>)
        requires
            initial_state@.orientations_valid(),
            self.well_formed(),
        ensures
            mixed_variants_view(r@) == mixed_one_change_variants(self.base(), self.step_alternatives(), initial_state@),
    {
        let mut variants: Vec<(ModifiedMixedSequence, State)> = Vec::new();
        self.push_one_change_variants(initial_state, &mut variants);
        assert(mixed_variants_view(Seq::<(ModifiedMixedSequence, State)>::empty()) =~= Seq::empty());
        assert(Seq::<((Seq<MixedOperation>, Seq<MixedModifier>), StateView)>::empty() + mixed_one_change_variants(
            self.base(),
            self.step_alternatives(),
            initial_state@,
        ) =~= mixed_one_change_variants(self.base(), self.step_alternatives(), initial_state@));
        variants
    }

    /// The one-change variants followed by every variant that replaces two
    /// different steps, each by one of its candidates, with the states reached.
    pub fn explore_variants_two_changes(&self, initial_state: &State) -> (r: Vec<(ModifiedMixedSequence, State)>)
        requires
            initial_state@.orientations_valid(),
            self.well_formed(),
        ensures
            mixed_variants_view(r@) == mixed_one_change_variants(self.base(), self.step_alternatives(), initial_state@)
                + mixed_pair_change_variants(self.base(), self.step_alternatives(), initial_state@),
    {
        let ghost base = self.base();
        let ghost alts = self.step_alternatives();
        let ghost init = initial_state@;
        let mut variants = self.explore_variants_one_change(initial_state);
        let ghost start = mixed_variants_view(variants@);
        let n = self.base_operations.len();
        let mut alternatives: Vec<Vec<MixedOperation>> = Vec::new();
        let mut s: usize = 0;
        while s < n
            invariant
                s <= n,
                n == base.len(),
                base == self.base(),
                alts == self.step_alternatives(),
                alternatives@.len() == s,
                forall|k: int| 0 <= k < s ==> (#[trigger] alternatives@[k])@ == alts(k),
            decreases n - s,
        {
            alternatives.push(self.get_alternative_operations(&self.base_operations[s]));
            s = s + 1;
        }
        let ghost rows = |i: int| mixed_first_step_variants(base, alts, init, i);
        let mut i: usize = 0;
        while i < n
            invariant
                i <= n,
                n == base.len(),
                base == self.base(),
                alts == self.step_alternatives(),
                init == initial_state@,
                init.orientations_valid(),
                self.well_formed(),
                alternatives@.len() == n,
                forall|k: int| 0 <= k < n ==> (#[trigger] alternatives@[k])@ == alts(k),
                rows == (|i: int| mixed_first_step_variants(base, alts, init, i)),
                mixed_variants_view(variants@) == start + Seq::new(i as nat, rows).flatten_alt(),
            decreases n - i,
        {
            let ghost prefix_i = start + Seq::new(i as nat, rows).flatten_alt();
            let ghost pairs = |d: int| mixed_pair_variants(base, alts, init, i as int, i + 1 + d);
            let mut j: usize = i + 1;
            while j < n
                invariant
                    i < j <= n,
                    n == base.len(),
                    base == self.base(),
                    alts == self.step_alternatives(),
                    init == initial_state@,
                    init.orientations_valid(),
                    self.well_formed(),
                    alternatives@.len() == n,
                    forall|k: int| 0 <= k < n ==> (#[trigger] alternatives@[k])@ == alts(k),
                    pairs == (|d: int| mixed_pair_variants(base, alts, init, i as int, i + 1 + d)),
                    mixed_variants_view(variants@) == prefix_i + Seq::new((j - i - 1) as nat, pairs).flatten_alt(),
                decreases n - j,
            {
                let ghost prefix_j = prefix_i + Seq::new((j - i - 1) as nat, pairs).flatten_alt();
                let ghost alts_i = alts(i as int);
                let ghost arows = |a: int| mixed_pair_row(base, alts, init, i as int, j as int, a);
                assert(mixed_ops_valid(alts(i as int)));
                assert(mixed_ops_valid(alts(j as int)));
                let mut a: usize = 0;
                while a < alternatives[i].len()
                    invariant
                        i < j < n,
                        a <= alts_i.len(),
                        n == base.len(),
                        base == self.base(),
                        init == initial_state@,
                        init.orientations_valid(),
                        mixed_ops_valid(base),
                        alternatives@.len() == n,
                        forall|k: int| 0 <= k < n ==> (#[trigger] alternatives@[k])@ == alts(k),
                        alts_i == alts(i as int),
                        mixed_ops_valid(alts_i),
                        mixed_ops_valid(alts(j as int)),
                        arows == (|a: int| mixed_pair_row(base, alts, init, i as int, j as int, a)),
                        mixed_variants_view(variants@) == prefix_j + Seq::new(a as nat, arows).flatten_alt(),
                    decreases alts_i.len() - a,
                {
                    let ghost prefix_a = prefix_j + Seq::new(a as nat, arows).flatten_alt();
                    let ghost row = mixed_pair_row(base, alts, init, i as int, j as int, a as int);
                    let mut b: usize = 0;
                    while b < alternatives[j].len()
                        invariant
                            i < j < n,
                            a < alts_i.len(),
                            b <= alternatives@[j as int]@.len(),
                            n == base.len(),
                            base == self.base(),
                            init == initial_state@,
                            init.orientations_valid(),
                            mixed_ops_valid(base),
                            alternatives@.len() == n,
                            forall|k: int| 0 <= k < n ==> (#[trigger] alternatives@[k])@ == alts(k),
                            alts_i == alts(i as int),
                            mixed_ops_valid(alts_i),
                            mixed_ops_valid(alts(j as int)),
                            row == mixed_pair_row(base, alts, init, i as int, j as int, a as int),
                            mixed_variants_view(variants@) == prefix_a + row.take(b as int),
                        decreases alternatives@[j as int]@.len() - b,
                    {
                        let mi = make_modifier(i, &alternatives[i][a]);
                        let mj = make_modifier(j, &alternatives[j][b]);
                        assert(alts_i[a as int].valid());
                        assert(alts(j as int)[b as int].valid());
                        let mods = vec![mi, mj];
                        assert(mods@ == seq![mi, mj]);
                        let v = mixed_variant_exec(&self.base_operations, mods, initial_state);
                        let ghost prev = mixed_variants_view(variants@);
                        variants.push(v);
                        proof {
                            assert(mixed_variants_view(variants@) =~= prev.push((v.0@, v.1@)));
                            assert(row.take(b + 1) =~= row.take(b as int).push((v.0@, v.1@)));
                        }
                        b = b + 1;
                    }
                    proof {
                        assert(row.take(b as int) =~= row);
                        lemma_flatten_alt_step(arows, a as int);
                    }
                    a = a + 1;
                }
                proof {
                    lemma_flatten_alt_step(pairs, (j - i - 1) as int);
                    assert(pairs((j - i - 1) as int) == mixed_pair_variants(base, alts, init, i as int, j as int));
                }
                j = j + 1;
            }
            proof {
                lemma_flatten_alt_step(rows, i as int);
                assert(Seq::new((n - i - 1) as nat, pairs) =~= Seq::new(
                    (n - i - 1) as nat,
                    |d: int| mixed_pair_variants(base, alts, init, i as int, i + 1 + d),
                ));
            }
            i = i + 1;
        }
        variants
    }
}

} // verus!
