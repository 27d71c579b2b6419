//! Nearby search over move sequences: one move replaced or deleted.
use vstd::prelude::*;
use super::move_modifier::{copy_move_list, modified_moves, ModifiedMoveSequence, MoveModifier};
use super::nearby_search::lemma_flatten_alt_step;
use super::notation_alternative_generator::NotationAlternativeGenerator;
use crate::cube::operations::{apply_notation_seq, fits_any_turn};
use crate::cube::state::{State, StateView};
use crate::parser::move_parser::{NotationMove, Sequence};

verus! {

/// The replacements tried for a move: the generator's candidates, then `Noop` (deletion).
pub open spec fn replacements_of<G: NotationAlternativeGenerator + ?Sized>(gen: Box<G>, mv: NotationMove) -> Seq<
    NotationMove,
> {
    gen.spec_alternatives(mv).push(NotationMove::Noop)
}

/// A variant: the modified sequence and the state its moves reach.
pub open spec fn sequence_variant(base: Seq<NotationMove>, m: MoveModifier, init: StateView) -> (
    (Seq<NotationMove>, Seq<MoveModifier>),
    StateView,
) {
    ((base, seq![m]), apply_notation_seq(init, modified_moves(base, seq![m])))
}

/// The variants that replace step `s` by each of `alts(s)`.
pub open spec fn sequence_step_variants(
    base: Seq<NotationMove>,
    alts: spec_fn(int) -> Seq<NotationMove>,
    init: StateView,
    s: int,
) -> Seq<((Seq<NotationMove>, Seq<MoveModifier>), StateView)> {
    alts(s).map_values(|alt: NotationMove| sequence_variant(base, MoveModifier { step: s as usize, new_move: alt }, init))
}

/// All one-step variants, step by step.
pub open spec fn sequence_one_change_variants(
    base: Seq<NotationMove>,
    alts: spec_fn(int) -> Seq<NotationMove>,
    init: StateView,
) -> Seq<((Seq<NotationMove>, Seq<MoveModifier>), StateView)> {
    Seq::new(base.len(), |s: int| sequence_step_variants(base, alts, init, s)).flatten_alt()
}

/// The view of a list of variants.
pub open spec fn sequence_variants_view(v: Seq<(ModifiedMoveSequence, State)>) -> Seq<
    ((Seq<NotationMove>, Seq<MoveModifier>), StateView),
> {
    v.map_values(|p: (ModifiedMoveSequence, State)| (p.0@, p.1@))
}

/// Generates the variants of a move sequence that replace or delete one move.
pub struct NearbySequenceSearch<G: NotationAlternativeGenerator + ?Sized> {
    base_sequence: Sequence,
    alternative_generator: Box<G>,
}

impl<G: NotationAlternativeGenerator + ?Sized> NearbySequenceSearch<G> {
    pub closed spec fn base(&self) -> Seq<NotationMove> {
        self.base_sequence@
    }

    pub closed spec fn generator(&self) -> Box<G> {
        self.alternative_generator
    }

    /// The replacements for each step of the base sequence.
    pub open spec fn step_replacements(&self) -> spec_fn(int) -> Seq<NotationMove> {
        |s: int| replacements_of(self.generator(), self.base()[s])
    }

    pub fn new(base_sequence: Sequence, alternative_generator: Box<G>) -> (r: Self)
        ensures
            r.base() == base_sequence@,
            r.generator() == alternative_generator,
    {
        NearbySequenceSearch { base_sequence, alternative_generator }
    }

    /// The generator's candidates for `mv`, then `Noop`.
    fn get_alternative_moves(&self, mv: &NotationMove) -> (r: Vec<NotationMove>)
        ensures
            r@ == replacements_of(self.generator(), *mv),
    {
        let mut r = self.alternative_generator.generate_alternatives(mv);
        r.push(NotationMove::Noop);
        r
    }

    /// Every variant that replaces one step by one of its replacements, with the
    /// state its moves reach from `initial_state`.
    pub fn explore_variants_one_change(&self, initial_state: &State) -> (r: Vec<(ModifiedMoveSequence, State)>)
        requires
            fits_any_turn(initial_state@),
        ensures
            sequence_variants_view(r@) == sequence_one_change_variants(
                self.base(),
                self.step_replacements(),
                initial_state@,
            ),
    {
        let ghost base = self.base();
        let ghost alts = self.step_replacements();
        let ghost init = initial_state@;
        let ghost blocks = |s: int| sequence_step_variants(base, alts, init, s);
        let mut variants: Vec<(ModifiedMoveSequence, State)> = Vec::new();
        let mut step: usize = 0;
        while step < self.base_sequence.len()
            invariant
                step <= base.len(),
                base == self.base(),
                alts == self.step_replacements(),
                init == initial_state@,
                fits_any_turn(init),
                blocks == (|s: int| sequence_step_variants(base, alts, init, s)),
                sequence_variants_view(variants@) == Seq::new(step as nat, blocks).flatten_alt(),
            decreases base.len() - step,
        {
            let alternatives = self.get_alternative_moves(&self.base_sequence[step]);
            assert(alternatives@ == alts(step as int));
            let ghost prefix = Seq::new(step as nat, blocks).flatten_alt();
            let mut a: usize = 0;
            while a < alternatives.len()
                invariant
                    a <= alternatives@.len(),
                    step < base.len(),
                    base == self.base(),
                    init == initial_state@,
                    fits_any_turn(init),
                    alternatives@ == alts(step as int),
                    sequence_variants_view(variants@) == prefix + sequence_step_variants(base, alts, init, step as int).take(
                        a as int,
                    ),
                decreases alternatives@.len() - a,
            {
                let mut modified = ModifiedMoveSequence::new(copy_move_list(&self.base_sequence));
                let m = MoveModifier::new(step, alternatives[a]);
                modified.add_modifier(m);
                assert(modified@.1 =~= seq![m]);
                let final_state = modified.apply_to_state(initial_state);
                let ghost prev = sequence_variants_view(variants@);
                let ghost item = (modified@, final_state@);
                variants.push((modified, final_state));
                proof {
                    assert(sequence_variants_view(variants@) =~= prev.push(item));
                    assert(sequence_step_variants(base, alts, init, step as int).take(a + 1) =~= sequence_step_variants(
                        base,
                        alts,
                        init,
                        step as int,
                    ).take(a as int).push(item));
                }
                a = a + 1;
            }
            proof {
                assert(sequence_step_variants(base, alts, init, step as int).take(a as int) =~= sequence_step_variants(
                    base,
                    alts,
                    init,
                    step as int,
                ));
                lemma_flatten_alt_step(blocks, step as int);
            }
            step = step + 1;
        }
        variants
    }
}

} // verus!
