//! Replacements (or deletions, with `Noop`) of single moves of a move sequence.
use vstd::prelude::*;
use crate::cube::operations::{apply_notation_seq, apply_notation_sequence, fits_any_turn};
use crate::cube::state::State;
use crate::parser::move_parser::{move_text, NotationMove, Sequence};
use crate::text::{empty_string, join_with, lemma_join_with_push, push_char, push_str};

verus! {

/// Replacement of the move at step `step` by `new_move`; `Noop` deletes it.
#[derive(Debug, Clone, Copy, PartialEq, Eq, Structural)]
pub struct MoveModifier {
    pub step: usize,
    pub new_move: NotationMove,
}

impl MoveModifier {
    pub fn new(step: usize, new_move: NotationMove) -> (r: Self)
        ensures
            r == (MoveModifier { step, new_move }),
    {
        MoveModifier { step, new_move }
    }

    pub fn step(&self) -> (r: usize)
        ensures
            r == self.step,
    {
        self.step
    }

    pub fn notation_move(&self) -> (r: &NotationMove)
        ensures
            *r == self.new_move,
    {
        &self.new_move
    }
}

/// The first modifier of step `i`, if any.
pub open spec fn first_move_modifier(mods: Seq<MoveModifier>, i: int) -> Option<MoveModifier>
    decreases mods.len(),
{
    if mods.len() == 0 {
        None
    } else if mods[0].step == i {
        Some(mods[0])
    } else {
        first_move_modifier(mods.drop_first(), i)
    }
}

/// Whether some modifier has step `i`.
pub open spec fn move_step_modified(mods: Seq<MoveModifier>, i: int) -> bool {
    exists|k: int| 0 <= k < mods.len() && (#[trigger] mods[k]).step == i
}

/// The moves of `orig` with, at each step that has modifiers, the move of the
/// first of them (nothing for `Noop`).
pub open spec fn modified_moves(orig: Seq<NotationMove>, mods: Seq<MoveModifier>) -> Seq<NotationMove>
    decreases orig.len(),
{
    if orig.len() == 0 {
        Seq::empty()
    } else {
        let prev = modified_moves(orig.drop_last(), mods);
        match first_move_modifier(mods, orig.len() - 1) {
            Some(m) => if m.new_move == NotationMove::Noop {
                prev
            } else {
                prev.push(m.new_move)
            },
            None => prev.push(orig.last()),
        }
    }
}

/// One modifier replaces the move at its step by its new move, or deletes that
/// move when the new move is `Noop`; a step past the end changes nothing.
pub proof fn lemma_single_move_modifier(orig: Seq<NotationMove>, m: MoveModifier)
    ensures
        modified_moves(orig, seq![m]) == if m.step < orig.len() {
            if m.new_move == NotationMove::Noop {
                orig.remove(m.step as int)
            } else {
                orig.update(m.step as int, m.new_move)
            }
        } else {
            orig
        },
    decreases orig.len(),
{
    let mods = seq![m];
    if orig.len() > 0 {
        let d = orig.drop_last();
        let i = orig.len() - 1;
        lemma_single_move_modifier(d, m);
        assert(mods.drop_first() =~= Seq::<MoveModifier>::empty());
        assert(first_move_modifier(mods.drop_first(), i) is None);
        if m.step == i {
            assert(first_move_modifier(mods, i) == Some(m));
            if m.new_move == NotationMove::Noop {
                assert(d =~= orig.remove(i));
            } else {
                assert(d.push(m.new_move) =~= orig.update(i, m.new_move));
            }
        } else {
            assert(first_move_modifier(mods, i) is None);
            if m.step < i {
                if m.new_move == NotationMove::Noop {
                    assert(d.remove(m.step as int).push(orig.last()) =~= orig.remove(m.step as int));
                } else {
                    assert(d.update(m.step as int, m.new_move).push(orig.last()) =~= orig.update(m.step as int, m.new_move));
                }
            } else {
                assert(d.push(orig.last()) =~= orig);
            }
        }
    } else {
        assert(orig =~= Seq::<NotationMove>::empty());
    }
}

/// The display item of step `i`: the original move, or the first modifier's move
/// between `**`, or `****` for a deletion.
pub open spec fn modified_move_item(orig: Seq<NotationMove>, mods: Seq<MoveModifier>, i: int) -> Seq<char> {
    match first_move_modifier(mods, i) {
        Some(m) => if m.new_move == NotationMove::Noop {
            "****"@
        } else {
            "**"@ + move_text(m.new_move) + "**"@
        },
        None => move_text(orig[i]),
    }
}

/// The display text of a modified sequence: its items separated by spaces, in braces.
pub open spec fn modified_moves_text(v: (Seq<NotationMove>, Seq<MoveModifier>)) -> Seq<char> {
    "{"@ + join_with(Seq::new(v.0.len(), |i: int| modified_move_item(v.0, v.1, i)), seq![' ']) + "}"@
}

proof fn lemma_first_move_modifier_skip(mods: Seq<MoveModifier>, i: int, k: int)
    requires
        0 <= k < mods.len(),
        mods[k].step != i,
    ensures
        first_move_modifier(mods.skip(k), i) == first_move_modifier(mods.skip(k + 1), i),
{
    assert(mods.skip(k).drop_first() =~= mods.skip(k + 1));
}

proof fn lemma_first_move_modifier_found(mods: Seq<MoveModifier>, i: int, k: int)
    requires
        0 <= k < mods.len(),
        mods[k].step == i,
    ensures
        first_move_modifier(mods.skip(k), i) == Some(mods[k]),
{
    assert(mods.skip(k)[0] == mods[k]);
}

/// The first modifier of step `i` in `mods`.
pub fn find_move_modifier(mods: &Vec<MoveModifier>, i: usize) -> (r: Option<MoveModifier>)
    ensures
        r == first_move_modifier(mods@, i as int),
        r is Some <==> move_step_modified(mods@, i as int),
{
    let mut k: usize = 0;
    assert(mods@.skip(0) =~= mods@);
    while k < mods.len()
        invariant
            k <= mods.len(),
            first_move_modifier(mods@, i as int) == first_move_modifier(mods@.skip(k as int), i as int),
            forall|j: int| 0 <= j < k ==> (#[trigger] mods@[j]).step != i,
        decreases mods.len() - k,
    {
        if mods[k].step == i {
            proof {
                lemma_first_move_modifier_found(mods@, i as int, k as int);
            }
            return Some(mods[k]);
        }
        proof {
            lemma_first_move_modifier_skip(mods@, i as int, k as int);
        }
        k = k + 1;
    }
    assert(mods@.skip(k as int) =~= Seq::<MoveModifier>::empty());
    None
}

/// A move sequence together with replacements of some of its moves.
#[derive(Debug, Clone)]
pub struct ModifiedMoveSequence {
    pub original_sequence: Sequence,
    pub modifiers: Vec<MoveModifier>,
}

impl View for ModifiedMoveSequence {
    type V = (Seq<NotationMove>, Seq<MoveModifier>);

    open spec fn view(&self) -> (Seq<NotationMove>, Seq<MoveModifier>) {
        (self.original_sequence@, self.modifiers@)
    }
}

/// A copy of a move list.
pub fn copy_move_list(v: &Sequence) -> (r: Sequence)
    ensures
        r@ == v@,
{
    let mut r: Vec<NotationMove> = Vec::new();
    let mut i: usize = 0;
    while i < v.len()
        invariant
            i <= v.len(),
            r@ == v@.take(i as int),
        decreases v.len() - i,
    {
        r.push(v[i]);
        i = i + 1;
        assert(r@ =~= v@.take(i as int));
    }
    assert(v@.take(v.len() as int) =~= v@);
    r
}

/// A copy of a modifier list.
pub fn copy_move_modifiers(v: &Vec<MoveModifier>) -> (r: Vec<MoveModifier>)
    ensures
        r@ == v@,
{
    let mut r: Vec<MoveModifier> = Vec::new();
    let mut i: usize = 0;
    while i < v.len()
        invariant
            i <= v.len(),
            r@ == v@.take(i as int),
        decreases v.len() - i,
    {
        r.push(v[i]);
        i = i + 1;
        assert(r@ =~= v@.take(i as int));
    }
    assert(v@.take(v.len() as int) =~= v@);
    r
}

impl ModifiedMoveSequence {
    pub fn new(original_sequence: Sequence) -> (r: Self)
        ensures
            r@ == (original_sequence@, Seq::<MoveModifier>::empty()),
    {
        ModifiedMoveSequence { original_sequence, modifiers: Vec::new() }
    }

    pub fn add_modifier(&mut self, modifier: MoveModifier)
        ensures
            final(self)@ == (old(self)@.0, old(self)@.1.push(modifier)),
    {
        self.modifiers.push(modifier);
    }

    /// An independent copy.
    pub fn copy(&self) -> (r: Self)
        ensures
            r@ == self@,
    {
        ModifiedMoveSequence {
            original_sequence: copy_move_list(&self.original_sequence),
            modifiers: copy_move_modifiers(&self.modifiers),
        }
    }

    /// The resulting moves (see [`modified_moves`]).
    pub fn get_sequence(&self) -> (r: Sequence)
        ensures
            r@ == modified_moves(self@.0, self@.1),
    {
        let mut result: Vec<NotationMove> = Vec::new();
        let mut i: usize = 0;
        while i < self.original_sequence.len()
            invariant
                i <= self.original_sequence.len(),
                result@ == modified_moves(self@.0.take(i as int), self@.1),
            decreases self.original_sequence.len() - i,
        {
            assert(self@.0.take(i + 1).drop_last() =~= self@.0.take(i as int));
            match find_move_modifier(&self.modifiers, i) {
                Some(m) => {
                    if m.new_move != NotationMove::Noop {
                        result.push(m.new_move);
                    }
                },
                None => {
                    result.push(self.original_sequence[i]);
                },
            }
            i = i + 1;
        }
        assert(self@.0.take(self@.0.len() as int) =~= self@.0);
        result
    }

    /// The length of the original sequence.
    pub fn len(&self) -> (n: usize)
        ensures
            n == self@.0.len(),
    {
        self.original_sequence.len()
    }

    pub fn is_empty(&self) -> (b: bool)
        ensures
            b == (self@.0.len() == 0),
    {
        self.original_sequence.len() == 0
    }

    /// The state reached by performing the resulting moves on `initial_state`.
    pub fn apply_to_state(&self, initial_state: &State) -> (r: State)
        requires
            fits_any_turn(initial_state@),
        ensures
            r@ == apply_notation_seq(initial_state@, modified_moves(self@.0, self@.1)),
    {
        let sequence = self.get_sequence();
        apply_notation_sequence(initial_state, &sequence)
    }

    /// Whether some modifier has step `step`.
    pub fn is_modified(&self, step: usize) -> (b: bool)
        ensures
            b == move_step_modified(self@.1, step as int),
    {
        let r = find_move_modifier(&self.modifiers, step);
        r.is_some()
    }

    /// The items of the steps separated by spaces, in braces (see [`modified_moves_text`]).
    pub fn to_display_string(&self) -> (s: String)
        ensures
            s@ == modified_moves_text(self@),
    {
        let ghost items = Seq::new(self@.0.len(), |i: int| modified_move_item(self@.0, self@.1, i));
        let mut body = empty_string();
        let mut i: usize = 0;
        while i < self.original_sequence.len()
            invariant
                i <= self.original_sequence.len(),
                items == Seq::new(self@.0.len(), |i: int| modified_move_item(self@.0, self@.1, i)),
                body@ == join_with(items.take(i as int), seq![' ']),
            decreases self.original_sequence.len() - i,
        {
            proof {
                lemma_join_with_push(items.take(i as int), seq![' '], items[i as int]);
                assert(items.take(i + 1) =~= items.take(i as int).push(items[i as int]));
            }
            let ghost before = body@;
            if i > 0 {
                push_char(&mut body, ' ');
            }
            let ghost mid = body@;
            match find_move_modifier(&self.modifiers, i) {
                Some(m) => {
                    if m.new_move == NotationMove::Noop {
                        push_str(&mut body, "****");
                    } else {
                        push_str(&mut body, "**");
                        let t = m.new_move.to_string();
                        push_str(&mut body, t.as_str());
                        push_str(&mut body, "**");
                    }
                },
                None => {
                    let t = self.original_sequence[i].to_string();
                    push_str(&mut body, t.as_str());
                },
            }
            assert(body@ =~= mid + items[i as int]);
            proof {
                if i == 0 {
                    assert(body@ =~= items[0]);
                }
            }
            i = i + 1;
        }
        assert(items.take(self@.0.len() as int) =~= items);
        let mut s = empty_string();
        push_str(&mut s, "{");
        push_str(&mut s, body.as_str());
        push_str(&mut s, "}");
        s
    }
}

} // verus!
