//! Replacements of whole move sequences of a collection by modified ones.
use vstd::prelude::*;
use super::move_modifier::{modified_moves, modified_moves_text, ModifiedMoveSequence, MoveModifier};
use crate::cube::operations::{apply_notation_seq, apply_notation_sequence, fits_any_turn};
use crate::cube::state::{State, StateView};
use crate::parser::move_parser::{sequence_text, sequence_to_string, NotationMove, Sequence};
use crate::text::{decimal, empty_string, push_decimal, push_str};

verus! {

/// Replacement of the sequence at `sequence_index` by a modified sequence.
#[derive(Debug, Clone)]
pub struct CollectionModifier {
    pub sequence_index: usize,
    pub modified_sequence: ModifiedMoveSequence,
}

impl View for CollectionModifier {
    type V = (usize, (Seq<NotationMove>, Seq<MoveModifier>));

    open spec fn view(&self) -> (usize, (Seq<NotationMove>, Seq<MoveModifier>)) {
        (self.sequence_index, self.modified_sequence@)
    }
}

impl CollectionModifier {
    pub fn new(sequence_index: usize, modified_sequence: ModifiedMoveSequence) -> (r: Self)
        ensures
            r@ == (sequence_index, modified_sequence@),
    {
        CollectionModifier { sequence_index, modified_sequence }
    }

    pub fn sequence_index(&self) -> (r: usize)
        ensures
            r == self.sequence_index,
    {
        self.sequence_index
    }

    pub fn modified_sequence(&self) -> (r: &ModifiedMoveSequence)
        ensures
            r@ == self@.1,
    {
        &self.modified_sequence
    }
}

/// The first modifier of sequence `i`, if any.
pub open spec fn first_collection_modifier(mods: Seq<(usize, (Seq<NotationMove>, Seq<MoveModifier>))>, i: int) -> Option<
    (usize, (Seq<NotationMove>, Seq<MoveModifier>)),
>
    decreases mods.len(),
{
    if mods.len() == 0 {
        None
    } else if mods[0].0 == i {
        Some(mods[0])
    } else {
        first_collection_modifier(mods.drop_first(), i)
    }
}

/// Whether some modifier has sequence index `i`.
pub open spec fn collection_index_modified(mods: Seq<(usize, (Seq<NotationMove>, Seq<MoveModifier>))>, i: int) -> bool {
    exists|k: int| 0 <= k < mods.len() && (#[trigger] mods[k]).0 == i
}

/// The collection with each sequence that has modifiers replaced by the
/// resulting moves of the first of them.
pub open spec fn modified_collection(
    v: (Seq<Seq<NotationMove>>, Seq<(usize, (Seq<NotationMove>, Seq<MoveModifier>))>),
) -> Seq<Seq<NotationMove>> {
    Seq::new(
        v.0.len(),
        |i: int|
            match first_collection_modifier(v.1, i) {
                Some(cm) => modified_moves(cm.1.0, cm.1.1),
                None => v.0[i],
            },
    )
}

/// The state after performing the move lists one after another.
pub open spec fn apply_move_lists(s: StateView, lists: Seq<Seq<NotationMove>>) -> StateView
    decreases lists.len(),
{
    if lists.len() == 0 {
        s
    } else {
        apply_notation_seq(apply_move_lists(s, lists.drop_last()), lists.last())
    }
}

/// The display line of sequence `i`: `  Sequence #<i + 1>: ` and the modified
/// sequence's text, or the original moves in braces, then a newline.
pub open spec fn collection_line(
    v: (Seq<Seq<NotationMove>>, Seq<(usize, (Seq<NotationMove>, Seq<MoveModifier>))>),
    i: int,
) -> Seq<char> {
    "  Sequence #"@ + decimal((i + 1) as nat) + ": "@ + (match first_collection_modifier(v.1, i) {
        Some(cm) => modified_moves_text(cm.1),
        None => "{"@ + sequence_text(v.0[i]) + "}"@,
    }) + "\n"@
}

/// The display text of a modified collection: a heading line, then one line per sequence.
pub open spec fn collection_text(
    v: (Seq<Seq<NotationMove>>, Seq<(usize, (Seq<NotationMove>, Seq<MoveModifier>))>),
) -> Seq<char> {
    "ModifiedMoveSequenceCollection:\n"@ + Seq::new(v.0.len(), |i: int| collection_line(v, i)).flatten_alt()
}

/// A collection of move sequences together with replacements of some of them.
#[derive(Debug, Clone)]
pub struct ModifiedMoveSequenceCollection {
    pub original_collection: Vec<Sequence>,
    pub modifiers: Vec<CollectionModifier>,
}

impl View for ModifiedMoveSequenceCollection {
    type V = (Seq<Seq<NotationMove>>, Seq<(usize, (Seq<NotationMove>, Seq<MoveModifier>))>);

    open spec fn view(&self) -> (Seq<Seq<NotationMove>>, Seq<(usize, (Seq<NotationMove>, Seq<MoveModifier>))>) {
        (
            self.original_collection@.map_values(|s: Sequence| s@),
            self.modifiers@.map_values(|m: CollectionModifier| m@),
        )
    }
}

proof fn lemma_first_collection_modifier_skip(
    mods: Seq<(usize, (Seq<NotationMove>, Seq<MoveModifier>))>,
    i: int,
    k: int,
)
    requires
        0 <= k < mods.len(),
        mods[k].0 != i,
    ensures
        first_collection_modifier(mods.skip(k), i) == first_collection_modifier(mods.skip(k + 1), i),
{
    assert(mods.skip(k).drop_first() =~= mods.skip(k + 1));
}

fn copy_moves(v: &Sequence) -> (r: Sequence)
    ensures
        r@ == v@,
{
    super::move_modifier::copy_move_list(v)
}

impl ModifiedMoveSequenceCollection {
    pub fn new(original_collection: Vec<Sequence>) -> (r: Self)
        ensures
            r@.0 == original_collection@.map_values(|s: Sequence| s@),
            r@.1 == Seq::<(usize, (Seq<NotationMove>, Seq<MoveModifier>))>::empty(),
    {
        let r = ModifiedMoveSequenceCollection { original_collection, modifiers: Vec::new() };
        assert(r@.1 =~= Seq::<(usize, (Seq<NotationMove>, Seq<MoveModifier>))>::empty());
        r
    }

    pub fn add_modifier(&mut self, modifier: CollectionModifier)
        ensures
            final(self)@ == (old(self)@.0, old(self)@.1.push(modifier@)),
    {
        self.modifiers.push(modifier);
        assert(self@.1 =~= old(self)@.1.push(modifier@));
    }

    /// The index of the first modifier of sequence `i`, if any.
    fn find_modifier(&self, i: usize) -> (r: Option<usize>)
        ensures
            match r {
                Some(k) => k < self@.1.len() && first_collection_modifier(self@.1, i as int) == Some(self@.1[k as int]),
                None => first_collection_modifier(self@.1, i as int) is None,
            },
            r is Some <==> collection_index_modified(self@.1, i as int),
    {
        let ghost mods = self@.1;
        let mut k: usize = 0;
        assert(mods.skip(0) =~= mods);
        while k < self.modifiers.len()
            invariant
                k <= self.modifiers.len(),
                mods == self@.1,
                mods.len() == self.modifiers.len(),
                first_collection_modifier(mods, i as int) == first_collection_modifier(mods.skip(k as int), i as int),
                forall|j: int| 0 <= j < k ==> (#[trigger] mods[j]).0 != i,
            decreases self.modifiers.len() - k,
        {
            assert(mods[k as int] == self.modifiers@[k as int]@);
            if self.modifiers[k].sequence_index == i {
                assert(mods.skip(k as int)[0] == mods[k as int]);
                return Some(k);
            }
            proof {
                lemma_first_collection_modifier_skip(mods, i as int, k as int);
            }
            k = k + 1;
        }
        assert(mods.skip(k as int) =~= Seq::<(usize, (Seq<NotationMove>, Seq<MoveModifier>))>::empty());
        None
    }

    /// The collection with the modifiers applied (see [`modified_collection`]).
    pub fn get_collection(&self) -> (r: Vec<Sequence>)
        ensures
            r@.map_values(|s: Sequence| s@) == modified_collection(self@),
    {
        let ghost target = modified_collection(self@);
        let mut result: Vec<Sequence> = Vec::new();
        let mut i: usize = 0;
        while i < self.original_collection.len()
            invariant
                i <= self.original_collection.len(),
                target == modified_collection(self@),
                target.len() == self.original_collection.len(),
                result@.map_values(|s: Sequence| s@) == target.take(i as int),
            decreases self.original_collection.len() - i,
        {
            let ghost before = result@.map_values(|s: Sequence| s@);
            match self.find_modifier(i) {
                Some(k) => {
                    let moves = self.modifiers[k].modified_sequence.get_sequence();
                    result.push(moves);
                },
                None => {
                    let moves = copy_moves(&self.original_collection[i]);
                    result.push(moves);
                },
            }
            assert(result@.map_values(|s: Sequence| s@) =~= before.push(target[i as int]));
            i = i + 1;
            assert(target.take(i as int) =~= target.take(i - 1).push(target[i - 1]));
        }
        assert(target.take(target.len() as int) =~= target);
        result
    }

    /// The number of sequences.
    pub fn len(&self) -> (n: usize)
        ensures
            n == self@.0.len(),
    {
        self.original_collection.len()
    }

    pub fn is_empty(&self) -> (b: bool)
        ensures
            b == (self@.0.len() == 0),
    {
        self.original_collection.len() == 0
    }

    /// The state reached by performing the resulting sequences in order.
    pub fn apply_to_state(&self, initial_state: &State) -> (r: State)
        requires
            fits_any_turn(initial_state@),
        ensures
            r@ == apply_move_lists(initial_state@, modified_collection(self@)),
    {
        let collection = self.get_collection();
        let ghost lists = collection@.map_values(|s: Sequence| s@);
        let mut state = *initial_state;
        let mut i: usize = 0;
        while i < collection.len()
            invariant
                i <= collection.len(),
                lists == collection@.map_values(|s: Sequence| s@),
                state@ == apply_move_lists(initial_state@, lists.take(i as int)),
                fits_any_turn(state@),
            decreases collection.len() - i,
        {
            assert(lists.take(i + 1).drop_last() =~= lists.take(i as int));
            state = apply_notation_sequence(&state, &collection[i]);
            i = i + 1;
        }
        assert(lists.take(lists.len() as int) =~= lists);
        state
    }

    /// Whether some modifier has sequence index `sequence_index`.
    pub fn is_modified(&self, sequence_index: usize) -> (b: bool)
        ensures
            b == collection_index_modified(self@.1, sequence_index as int),
    {
        self.find_modifier(sequence_index).is_some()
    }

    /// A heading line, then one line per sequence (see [`collection_text`]).
    pub fn to_display_string(&self) -> (s: String)
        ensures
            s@ == collection_text(self@),
    {
        let ghost v = self@;
        let ghost lines = Seq::new(v.0.len(), |i: int| collection_line(v, i));
        let mut body = empty_string();
        let mut i: usize = 0;
        while i < self.original_collection.len()
            invariant
                i <= self.original_collection.len(),
                v == self@,
                lines == Seq::new(v.0.len(), |i: int| collection_line(v, i)),
                body@ == lines.take(i as int).flatten_alt(),
            decreases self.original_collection.len() - i,
        {
            assert(lines.take(i + 1).drop_last() =~= lines.take(i as int));
            let ghost before = body@;
            push_str(&mut body, "  Sequence #");
            push_decimal(&mut body, i + 1);
            push_str(&mut body, ": ");
            match self.find_modifier(i) {
                Some(k) => {
                    let t = self.modifiers[k].modified_sequence.to_display_string();
                    push_str(&mut body, t.as_str());
                },
                None => {
                    push_str(&mut body, "{");
                    let t = sequence_to_string(&self.original_collection[i]);
                    push_str(&mut body, t.as_str());
                    push_str(&mut body, "}");
                },
            }
            push_str(&mut body, "\n");
            assert(body@ =~= before + lines[i as int]);
            i = i + 1;
        }
        assert(lines.take(v.0.len() as int) =~= lines);
        let mut s = empty_string();
        push_str(&mut s, "ModifiedMoveSequenceCollection:\n");
        push_str(&mut s, body.as_str());
        s
    }
}

} // verus!
