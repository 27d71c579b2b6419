//! Finding which single-move change of a collection of move sequences leads
//! from one state to another.
use vstd::prelude::*;
use crate::cube::operations::fits_any_turn;
use crate::cube::state::{State, StateView};
use crate::explorer::collection_modifier::{
    apply_move_lists, collection_text, modified_collection, CollectionModifier, ModifiedMoveSequenceCollection,
};
use crate::explorer::move_modifier::{copy_move_list, MoveModifier};
use crate::explorer::nearby_sequence_search::{sequence_one_change_variants, sequence_variants_view, NearbySequenceSearch};
use crate::explorer::notation_alternative_generator::{move_differs, move_group, SameGroupAlternativeGenerator};
use crate::parser::move_parser::{NotationMove, Sequence};

verus! {

/// The view of a modified collection.
pub type CollectionView = (Seq<Seq<NotationMove>>, Seq<(usize, (Seq<NotationMove>, Seq<MoveModifier>))>);

/// The replacements tried for each move of `base`: the other moves of its
/// group, then `Noop`.
pub open spec fn same_group_replacements(base: Seq<NotationMove>) -> spec_fn(int) -> Seq<NotationMove> {
    |i: int| move_group(base[i]).filter(move_differs(base[i])).push(NotationMove::Noop)
}

/// The collections that change one move of sequence `s`, in the order of the
/// sequence's one-change variants.
pub open spec fn sequence_candidates(seqs: Seq<Seq<NotationMove>>, init: StateView, s: int) -> Seq<CollectionView> {
    sequence_one_change_variants(seqs[s], same_group_replacements(seqs[s]), init).map_values(
        |v: ((Seq<NotationMove>, Seq<MoveModifier>), StateView)| (seqs, seq![(s as usize, v.0)]),
    )
}

/// The collections that change one move of one sequence, sequence by sequence.
pub open spec fn collection_candidates(seqs: Seq<Seq<NotationMove>>, init: StateView) -> Seq<CollectionView> {
    Seq::new(seqs.len(), |s: int| sequence_candidates(seqs, init, s)).flatten_alt()
}

/// The collections whose moves lead from `before` to `after`, in order.
pub open spec fn collections_reaching(cands: Seq<CollectionView>, before: StateView, after: StateView) -> Seq<
    CollectionView,
>
    decreases cands.len(),
{
    if cands.len() == 0 {
        Seq::empty()
    } else {
        let prev = collections_reaching(cands.drop_last(), before, after);
        if apply_move_lists(before, modified_collection(cands.last())) == after {
            prev.push(cands.last())
        } else {
            prev
        }
    }
}

fn copy_sequences(v: &Vec<Sequence>) -> (r: Vec<Sequence>)
    ensures
        r@.map_values(|s: Sequence| s@) == v@.map_values(|s: Sequence| s@),
{
    let mut r: Vec<Sequence> = Vec::new();
    let mut i: usize = 0;
    while i < v.len()
        invariant
            i <= v.len(),
            r@.map_values(|s: Sequence| s@) == v@.take(i as int).map_values(|s: Sequence| s@),
        decreases v.len() - i,
    {
        let c = copy_move_list(&v[i]);
        let ghost before = r@.map_values(|s: Sequence| s@);
        r.push(c);
        assert(r@.map_values(|s: Sequence| s@) =~= before.push(v@[i as int]@));
        assert(v@.take(i + 1).map_values(|s: Sequence| s@) =~= v@.take(i as int).map_values(|s: Sequence| s@).push(
            v@[i as int]@,
        ));
        i = i + 1;
    }
    assert(v@.take(v.len() as int) =~= v@);
    r
}

/// A collection found to lead to the target state, with the state it reaches.
#[derive(Debug)]
pub struct AlternativeResult {
    pub modified_collection: ModifiedMoveSequenceCollection,
    pub final_state: State,
}

impl AlternativeResult {
    /// The display text of the collection (see [`collection_text`]).
    pub fn to_display_string(&self) -> (s: String)
        ensures
            s@ == collection_text(self.modified_collection@),
    {
        self.modified_collection.to_display_string()
    }
}

/// Searches single-move changes of a collection of move sequences.
pub struct NearbySequenceSearchWorkflow {
    sequences: Vec<Sequence>,
}

impl View for NearbySequenceSearchWorkflow {
    type V = Seq<Seq<NotationMove>>;

    closed spec fn view(&self) -> Seq<Seq<NotationMove>> {
        self.sequences@.map_values(|s: Sequence| s@)
    }
}

impl NearbySequenceSearchWorkflow {
    pub fn new(sequences: Vec<Sequence>) -> (r: Self)
        ensures
            r@ == sequences@.map_values(|s: Sequence| s@),
    {
        NearbySequenceSearchWorkflow { sequences }
    }

    /// The collections that change one move of one sequence (to another move of
    /// its group, or deleting it) and lead from `before_state` to `after_state`,
    /// with the states they reach.
    fn search(&self, before_state: &State, after_state: &State) -> (r: Vec<AlternativeResult>)
        requires
            fits_any_turn(before_state@),
        ensures
            r@.map_values(|a: AlternativeResult| a.modified_collection@) == collections_reaching(
                collection_candidates(self@, before_state@),
                before_state@,
                after_state@,
            ),
            forall|k: int| 0 <= k < r@.len() ==> (#[trigger] r@[k]).final_state@ == after_state@,
    {
        let ghost seqs = self@;
        let ghost before = before_state@;
        let ghost after = after_state@;
        let ghost blocks = |s: int| sequence_candidates(seqs, before, s);
        let mut results: Vec<AlternativeResult> = Vec::new();
        let mut seq_index: usize = 0;
        while seq_index < self.sequences.len()
            invariant
                seq_index <= self.sequences.len(),
                seqs == self@,
                seqs.len() == self.sequences.len(),
                before == before_state@,
                after == after_state@,
                fits_any_turn(before),
                blocks == (|s: int| sequence_candidates(seqs, before, s)),
                results@.map_values(|a: AlternativeResult| a.modified_collection@) == collections_reaching(
                    Seq::new(seq_index as nat, blocks).flatten_alt(),
                    before,
                    after,
                ),
                forall|k: int| 0 <= k < results@.len() ==> (#[trigger] results@[k]).final_state@ == after,
            decreases self.sequences.len() - seq_index,
        {
            let generator = Box::new(SameGroupAlternativeGenerator::new());
            let search = NearbySequenceSearch::new(copy_move_list(&self.sequences[seq_index]), generator);
            assert(seqs[seq_index as int] == self.sequences@[seq_index as int]@);
            assert(search.step_replacements() =~= same_group_replacements(seqs[seq_index as int]));
            let variants = search.explore_variants_one_change(before_state);
            let ghost block = blocks(seq_index as int);
            let ghost prefix = Seq::new(seq_index as nat, blocks).flatten_alt();
            assert(block.len() == variants@.len());
            assert forall|j: int| 0 <= j < variants@.len() implies #[trigger] block[j] == (
                seqs,
                seq![(seq_index, variants@[j].0@)],
            ) by {
                assert(sequence_variants_view(variants@)[j] == (variants@[j].0@, variants@[j].1@));
            }
            let mut k: usize = 0;
            while k < variants.len()
                invariant
                    k <= variants.len(),
                    seq_index < self.sequences.len(),
                    seqs == self@,
                    seqs.len() == self.sequences.len(),
                    before == before_state@,
                    after == after_state@,
                    fits_any_turn(before),
                    block == sequence_candidates(seqs, before, seq_index as int),
                    block.len() == variants@.len(),
                    forall|j: int|
                        0 <= j < variants@.len() ==> #[trigger] block[j] == (
                            seqs,
                            seq![(seq_index, variants@[j].0@)],
                        ),
                    results@.map_values(|a: AlternativeResult| a.modified_collection@) == collections_reaching(
                        prefix + block.take(k as int),
                        before,
                        after,
                    ),
                    forall|k: int| 0 <= k < results@.len() ==> (#[trigger] results@[k]).final_state@ == after,
                decreases variants.len() - k,
            {
                assert((prefix + block.take(k + 1)).drop_last() =~= prefix + block.take(k as int));
                assert((prefix + block.take(k + 1)).last() == block[k as int]);
                let modified_seq = variants[k].0.copy();
                let mut modified_collection = ModifiedMoveSequenceCollection::new(copy_sequences(&self.sequences));
                modified_collection.add_modifier(CollectionModifier::new(seq_index, modified_seq));
                assert(modified_collection@ == block[k as int]);
                let final_state = modified_collection.apply_to_state(before_state);
                if final_state == *after_state {
                    let ghost prev = results@.map_values(|a: AlternativeResult| a.modified_collection@);
                    let ghost item = modified_collection@;
                    results.push(AlternativeResult { modified_collection, final_state });
                    assert(results@.map_values(|a: AlternativeResult| a.modified_collection@) =~= prev.push(item));
                }
                k = k + 1;
            }
            proof {
                assert(block.take(k as int) =~= block);
                crate::explorer::nearby_search::lemma_flatten_alt_step(blocks, seq_index as int);
            }
            seq_index = seq_index + 1;
        }
        results
    }

    /// The collections that change one move of one sequence (to another move of
    /// its group, or deleting it) and lead from `before_state` to `after_state`.
    pub fn find_alternatives(&self, before_state: &State, after_state: &State) -> (r: Vec<
        ModifiedMoveSequenceCollection,
    >)
        requires
            fits_any_turn(before_state@),
        ensures
            r@.map_values(|c: ModifiedMoveSequenceCollection| c@) == collections_reaching(
                collection_candidates(self@, before_state@),
                before_state@,
                after_state@,
            ),
    {
        let found = self.search(before_state, after_state);
        let ghost fv = found@.map_values(|a: AlternativeResult| a.modified_collection@);
        let mut r: Vec<ModifiedMoveSequenceCollection> = Vec::new();
        let mut rest = found;
        let ghost n = fv.len();
        while rest.len() > 0
            invariant
                rest@.len() <= n,
                n == fv.len(),
                r@.map_values(|c: ModifiedMoveSequenceCollection| c@) + rest@.map_values(
                    |a: AlternativeResult| a.modified_collection@,
                ) == fv,
            decreases rest@.len(),
        {
            let a = rest.remove(0);
            let ghost before_r = r@.map_values(|c: ModifiedMoveSequenceCollection| c@);
            r.push(a.modified_collection);
            assert(r@.map_values(|c: ModifiedMoveSequenceCollection| c@) =~= before_r.push(a.modified_collection@));
        }
        assert(r@.map_values(|c: ModifiedMoveSequenceCollection| c@) =~= fv);
        r
    }

    /// Like [`Self::find_alternatives`], each collection with the state it reaches.
    pub fn find_alternatives_with_details(&self, before_state: &State, after_state: &State) -> (r: Vec<
        AlternativeResult,
    >)
        requires
            fits_any_turn(before_state@),
        ensures
            r@.map_values(|a: AlternativeResult| a.modified_collection@) == collections_reaching(
                collection_candidates(self@, before_state@),
                before_state@,
                after_state@,
            ),
            forall|k: int| 0 <= k < r@.len() ==> (#[trigger] r@[k]).final_state@ == after_state@,
    {
        self.search(before_state, after_state)
    }
}

} // verus!
