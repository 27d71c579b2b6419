//! Replacements of single steps of a mixed corner and edge operation list.
use vstd::prelude::*;
use super::mixed_nearby_search::{
    apply_mixed_operations, apply_mixed_ops, mixed_op_text, mixed_ops_valid, MixedOperation,
};
use crate::cube::state::State;
use crate::inspection::corner_solver::{CornerSwapOperation, CornerTwistOperation};
use crate::inspection::edge_solver::{EdgeFlipOperation, EdgeSwapOperation};
use crate::text::{decimal, empty_string, join_with, lemma_join_with_push, push_char, push_decimal, push_str};

verus! {

/// Replacement of the corner swap at step `step` by `modifier`.
#[derive(Debug, Clone, Copy, PartialEq, Eq, Structural)]
pub struct MixedCornerSwapModifier {
    pub step: usize,
    pub modifier: CornerSwapOperation,
}

/// Replacement of the corner twist at step `step` by `modifier`.
#[derive(Debug, Clone, Copy, PartialEq, Eq, Structural)]
pub struct MixedCornerTwistModifier {
    pub step: usize,
    pub modifier: CornerTwistOperation,
}

/// Replacement of the edge swap at step `step` by `modifier`.
#[derive(Debug, Clone, Copy, PartialEq, Eq, Structural)]
pub struct MixedEdgeSwapModifier {
    pub step: usize,
    pub modifier: EdgeSwapOperation,
}

/// Replacement of the edge flip at step `step` by `modifier`.
#[derive(Debug, Clone, Copy, PartialEq, Eq, Structural)]
pub struct MixedEdgeFlipModifier {
    pub step: usize,
    pub modifier: EdgeFlipOperation,
}

/// A replacement of one step of a mixed operation list.
#[derive(Debug, Clone, Copy, PartialEq, Eq, Structural)]
pub enum MixedModifier {
    CornerSwap(MixedCornerSwapModifier),
    CornerTwist(MixedCornerTwistModifier),
    EdgeSwap(MixedEdgeSwapModifier),
    EdgeFlip(MixedEdgeFlipModifier),
}

impl MixedModifier {
    pub open spec fn spec_step(self) -> usize {
        match self {
            MixedModifier::CornerSwap(m) => m.step,
            MixedModifier::CornerTwist(m) => m.step,
            MixedModifier::EdgeSwap(m) => m.step,
            MixedModifier::EdgeFlip(m) => m.step,
        }
    }

    pub open spec fn spec_operation(self) -> MixedOperation {
        match self {
            MixedModifier::CornerSwap(m) => MixedOperation::CornerSwap(m.modifier),
            MixedModifier::CornerTwist(m) => MixedOperation::CornerTwist(m.modifier),
            MixedModifier::EdgeSwap(m) => MixedOperation::EdgeSwap(m.modifier),
            MixedModifier::EdgeFlip(m) => MixedOperation::EdgeFlip(m.modifier),
        }
    }

    /// The step that this modifier replaces.
    pub fn step(&self) -> (r: usize)
        ensures
            r == self.spec_step(),
    {
        match self {
            MixedModifier::CornerSwap(m) => m.step,
            MixedModifier::CornerTwist(m) => m.step,
            MixedModifier::EdgeSwap(m) => m.step,
            MixedModifier::EdgeFlip(m) => m.step,
        }
    }

    /// The operation that replaces the step.
    pub fn operation(&self) -> (r: MixedOperation)
        ensures
            r == self.spec_operation(),
    {
        match self {
            MixedModifier::CornerSwap(m) => MixedOperation::CornerSwap(m.modifier),
            MixedModifier::CornerTwist(m) => MixedOperation::CornerTwist(m.modifier),
            MixedModifier::EdgeSwap(m) => MixedOperation::EdgeSwap(m.modifier),
            MixedModifier::EdgeFlip(m) => MixedOperation::EdgeFlip(m.modifier),
        }
    }
}

/// The modifier that puts `op` at step `step`.
pub open spec fn mixed_modifier_for(step: usize, op: MixedOperation) -> MixedModifier {
    match op {
        MixedOperation::CornerSwap(o) => MixedModifier::CornerSwap(MixedCornerSwapModifier { step, modifier: o }),
        MixedOperation::CornerTwist(o) => MixedModifier::CornerTwist(MixedCornerTwistModifier { step, modifier: o }),
        MixedOperation::EdgeSwap(o) => MixedModifier::EdgeSwap(MixedEdgeSwapModifier { step, modifier: o }),
        MixedOperation::EdgeFlip(o) => MixedModifier::EdgeFlip(MixedEdgeFlipModifier { step, modifier: o }),
    }
}

/// The operation list with the modifiers applied in order; a modifier whose step
/// lies outside the list changes nothing, and a later modifier of the same step wins.
pub open spec fn apply_mixed_modifiers(orig: Seq<MixedOperation>, mods: Seq<MixedModifier>) -> Seq<MixedOperation>
    decreases mods.len(),
{
    if mods.len() == 0 {
        orig
    } else {
        let prev = apply_mixed_modifiers(orig, mods.drop_last());
        let m = mods.last();
        if m.spec_step() < prev.len() {
            prev.update(m.spec_step() as int, m.spec_operation())
        } else {
            prev
        }
    }
}

/// A modifier made for step `s` and operation `op` puts `op` at step `s` and
/// changes nothing else (nothing at all for a step past the end).
pub proof fn lemma_single_mixed_modifier(orig: Seq<MixedOperation>, s: usize, op: MixedOperation)
    ensures
        apply_mixed_modifiers(orig, seq![mixed_modifier_for(s, op)]) == if s < orig.len() {
            orig.update(s as int, op)
        } else {
            orig
        },
{
    let mods = seq![mixed_modifier_for(s, op)];
    assert(mods.drop_last() =~= Seq::<MixedModifier>::empty());
    assert(apply_mixed_modifiers(orig, mods.drop_last()) == orig);
    assert(mixed_modifier_for(s, op).spec_step() == s);
    assert(mixed_modifier_for(s, op).spec_operation() == op);
}

pub proof fn lemma_apply_mixed_modifiers_len(orig: Seq<MixedOperation>, mods: Seq<MixedModifier>)
    ensures
        apply_mixed_modifiers(orig, mods).len() == orig.len(),
    decreases mods.len(),
{
    if mods.len() > 0 {
        lemma_apply_mixed_modifiers_len(orig, mods.drop_last());
    }
}

/// The `Debug` text of the fields of a swap.
pub open spec fn swap_fields_debug(t1: usize, t2: usize, o: u8) -> Seq<char> {
    "target1: "@ + decimal(t1 as nat) + ", target2: "@ + decimal(t2 as nat) + ", orientation: "@ + decimal(o as nat)
}

/// The `Debug` text of a corner swap.
pub open spec fn corner_swap_debug(o: CornerSwapOperation) -> Seq<char> {
    "CornerSwapOperation { "@ + swap_fields_debug(o.target1, o.target2, o.orientation) + " }"@
}

/// The `Debug` text of a corner twist.
pub open spec fn corner_twist_debug(o: CornerTwistOperation) -> Seq<char> {
    "CornerTwistOperation { target: "@ + decimal(o.target as nat) + ", orientation: "@ + decimal(
        o.orientation as nat,
    ) + " }"@
}

/// The `Debug` text of an edge swap.
pub open spec fn edge_swap_debug(o: EdgeSwapOperation) -> Seq<char> {
    "EdgeSwapOperation { "@ + swap_fields_debug(o.target1, o.target2, o.orientation) + " }"@
}

/// The `Debug` text of an edge flip.
pub open spec fn edge_flip_debug(o: EdgeFlipOperation) -> Seq<char> {
    "EdgeFlipOperation { target: "@ + decimal(o.target as nat) + " }"@
}

/// The `Debug` text of a modifier, as `derive(Debug)` writes it.
pub open spec fn mixed_modifier_debug(m: MixedModifier) -> Seq<char> {
    match m {
        MixedModifier::CornerSwap(x) => "CornerSwap(MixedCornerSwapModifier { step: "@ + decimal(x.step as nat)
            + ", modifier: "@ + corner_swap_debug(x.modifier) + " })"@,
        MixedModifier::CornerTwist(x) => "CornerTwist(MixedCornerTwistModifier { step: "@ + decimal(x.step as nat)
            + ", modifier: "@ + corner_twist_debug(x.modifier) + " })"@,
        MixedModifier::EdgeSwap(x) => "EdgeSwap(MixedEdgeSwapModifier { step: "@ + decimal(x.step as nat)
            + ", modifier: "@ + edge_swap_debug(x.modifier) + " })"@,
        MixedModifier::EdgeFlip(x) => "EdgeFlip(MixedEdgeFlipModifier { step: "@ + decimal(x.step as nat)
            + ", modifier: "@ + edge_flip_debug(x.modifier) + " })"@,
    }
}

/// The description of one modifier: `Step <step + 1>: <Debug text>`.
pub open spec fn mixed_modifier_description(m: MixedModifier) -> Seq<char> {
    "Step "@ + decimal((m.spec_step() + 1) as nat) + ": "@ + mixed_modifier_debug(m)
}

fn push_debug_fields(s: &mut String, t1: usize, t2: usize, o: u8)
    ensures
        final(s)@ == old(s)@ + swap_fields_debug(t1, t2, o),
{
    push_str(s, "target1: ");
    push_decimal(s, t1);
    push_str(s, ", target2: ");
    push_decimal(s, t2);
    push_str(s, ", orientation: ");
    push_decimal(s, o as usize);
    assert(final(s)@ =~= old(s)@ + swap_fields_debug(t1, t2, o));
}

impl MixedModifier {
    /// The `Debug` text of the modifier.
    pub fn debug_string(&self) -> (s: String)
        ensures
            s@ == mixed_modifier_debug(*self),
    {
        let mut s = empty_string();
        match self {
            MixedModifier::CornerSwap(x) => {
                push_str(&mut s, "CornerSwap(MixedCornerSwapModifier { step: ");
                push_decimal(&mut s, x.step);
                push_str(&mut s, ", modifier: ");
                push_str(&mut s, "CornerSwapOperation { ");
                push_debug_fields(&mut s, x.modifier.target1, x.modifier.target2, x.modifier.orientation);
                push_str(&mut s, " }");
                push_str(&mut s, " })");
                assert(s@ =~= mixed_modifier_debug(*self));
            },
            MixedModifier::CornerTwist(x) => {
                push_str(&mut s, "CornerTwist(MixedCornerTwistModifier { step: ");
                push_decimal(&mut s, x.step);
                push_str(&mut s, ", modifier: ");
                push_str(&mut s, "CornerTwistOperation { target: ");
                push_decimal(&mut s, x.modifier.target);
                push_str(&mut s, ", orientation: ");
                push_decimal(&mut s, x.modifier.orientation as usize);
                push_str(&mut s, " }");
                push_str(&mut s, " })");
                assert(s@ =~= mixed_modifier_debug(*self));
            },
            MixedModifier::EdgeSwap(x) => {
                push_str(&mut s, "EdgeSwap(MixedEdgeSwapModifier { step: ");
                push_decimal(&mut s, x.step);
                push_str(&mut s, ", modifier: ");
                push_str(&mut s, "EdgeSwapOperation { ");
                push_debug_fields(&mut s, x.modifier.target1, x.modifier.target2, x.modifier.orientation);
                push_str(&mut s, " }");
                push_str(&mut s, " })");
                assert(s@ =~= mixed_modifier_debug(*self));
            },
            MixedModifier::EdgeFlip(x) => {
                push_str(&mut s, "EdgeFlip(MixedEdgeFlipModifier { step: ");
                push_decimal(&mut s, x.step);
                push_str(&mut s, ", modifier: ");
                push_str(&mut s, "EdgeFlipOperation { target: ");
                push_decimal(&mut s, x.modifier.target);
                push_str(&mut s, " }");
                push_str(&mut s, " })");
                assert(s@ =~= mixed_modifier_debug(*self));
            },
        }
        s
    }
}

/// A mixed operation list together with replacements of some of its steps.
#[derive(Debug, Clone)]
pub struct ModifiedMixedSequence {
    pub original_sequence: Vec<MixedOperation>,
    pub modifiers: Vec<MixedModifier>,
}

impl View for ModifiedMixedSequence {
    type V = (Seq<MixedOperation>, Seq<MixedModifier>);

    open spec fn view(&self) -> (Seq<MixedOperation>, Seq<MixedModifier>) {
        (self.original_sequence@, self.modifiers@)
    }
}

/// Whether some modifier replaces step `step`.
pub open spec fn mixed_step_modified(mods: Seq<MixedModifier>, step: int) -> bool {
    exists|k: int| 0 <= k < mods.len() && (#[trigger] mods[k]).spec_step() == step
}

/// The display line of step `i` (0-based) of a modified list: the operation
/// text, between `**` when the step is modified, followed by a newline.
pub open spec fn mixed_modified_line(i: int, op: MixedOperation, modified: bool) -> Seq<char> {
    "Step "@ + decimal((i + 1) as nat) + ": "@ + (if modified { "**"@ + mixed_op_text(op) + "**"@ } else {
        mixed_op_text(op)
    }) + seq!['\n']
}

/// The display text of a modified list: one line per step of the resulting list.
pub open spec fn mixed_modified_text(v: (Seq<MixedOperation>, Seq<MixedModifier>)) -> Seq<char> {
    let ops = apply_mixed_modifiers(v.0, v.1);
    Seq::new(ops.len(), |i: int| mixed_modified_line(i, ops[i], mixed_step_modified(v.1, i))).flatten_alt()
}

impl ModifiedMixedSequence {
    pub fn new(original_sequence: Vec<MixedOperation>) -> (r: Self)
        ensures
            r@ == (original_sequence@, Seq::<MixedModifier>::empty()),
    {
        Self { original_sequence, modifiers: Vec::new() }
    }

    /// An independent copy.
    pub fn copy(&self) -> (r: Self)
        ensures
            r@ == self@,
    {
        let mut ops: Vec<MixedOperation> = Vec::new();
        let mut i: usize = 0;
        while i < self.original_sequence.len()
            invariant
                i <= self.original_sequence.len(),
                ops@ == self@.0.take(i as int),
            decreases self.original_sequence.len() - i,
        {
            ops.push(self.original_sequence[i]);
            i = i + 1;
            assert(ops@ =~= self@.0.take(i as int));
        }
        let mut mods: Vec<MixedModifier> = Vec::new();
        let mut j: usize = 0;
        while j < self.modifiers.len()
            invariant
                j <= self.modifiers.len(),
                mods@ == self@.1.take(j as int),
            decreases self.modifiers.len() - j,
        {
            mods.push(self.modifiers[j]);
            j = j + 1;
            assert(mods@ =~= self@.1.take(j as int));
        }
        assert(self@.0.take(self@.0.len() as int) =~= self@.0);
        assert(self@.1.take(self@.1.len() as int) =~= self@.1);
        ModifiedMixedSequence { original_sequence: ops, modifiers: mods }
    }

    pub fn add_modifier(&mut self, modifier: MixedModifier)
        ensures
            final(self)@ == (old(self)@.0, old(self)@.1.push(modifier)),
    {
        self.modifiers.push(modifier);
    }

    /// The operation list with the modifiers applied; see [`apply_mixed_modifiers`].
    pub fn get_sequence(&self) -> (r: Vec<MixedOperation>)
        ensures
            r@ == apply_mixed_modifiers(self@.0, self@.1),
    {
        let mut result: Vec<MixedOperation> = Vec::new();
        let mut k: usize = 0;
        while k < self.original_sequence.len()
            invariant
                k <= self.original_sequence.len(),
                result@ == self@.0.take(k as int),
            decreases self.original_sequence.len() - k,
        {
            result.push(self.original_sequence[k]);
            k = k + 1;
            assert(result@ =~= self@.0.take(k as int));
        }
        assert(self@.0.take(self@.0.len() as int) =~= self@.0);
        let mut i: usize = 0;
        while i < self.modifiers.len()
            invariant
                i <= self.modifiers@.len(),
                result@ == apply_mixed_modifiers(self@.0, self@.1.take(i as int)),
            decreases self.modifiers@.len() - i,
        {
            assert(self@.1.take(i + 1).drop_last() =~= self@.1.take(i as int));
            let step = self.modifiers[i].step();
            if step < result.len() {
                result.set(step, self.modifiers[i].operation());
            }
            i = i + 1;
        }
        assert(self@.1.take(self@.1.len() as int) =~= self@.1);
        result
    }

    /// The descriptions of the modifiers, in order, joined with ", ".
    pub fn get_description(&self) -> (s: String)
        requires
            forall|k: int| 0 <= k < self@.1.len() ==> (#[trigger] self@.1[k]).spec_step() < usize::MAX,
        ensures
            s@ == join_with(self@.1.map_values(|m: MixedModifier| mixed_modifier_description(m)), ", "@),
    {
        let ghost texts = self@.1.map_values(|m: MixedModifier| mixed_modifier_description(m));
        let mut s = empty_string();
        let mut i: usize = 0;
        while i < self.modifiers.len()
            invariant
                i <= self.modifiers@.len(),
                texts == self@.1.map_values(|m: MixedModifier| mixed_modifier_description(m)),
                forall|k: int| 0 <= k < self@.1.len() ==> (#[trigger] self@.1[k]).spec_step() < usize::MAX,
                s@ == join_with(texts.take(i as int), ", "@),
            decreases self.modifiers@.len() - i,
        {
            proof {
                lemma_join_with_push(texts.take(i as int), ", "@, texts[i as int]);
                assert(texts.take(i + 1) =~= texts.take(i as int).push(texts[i as int]));
            }
            let ghost before = s@;
            if i > 0 {
                push_str(&mut s, ", ");
            }
            let m = self.modifiers[i];
            assert(m.spec_step() < usize::MAX);
            push_str(&mut s, "Step ");
            push_decimal(&mut s, m.step() + 1);
            push_str(&mut s, ": ");
            let d = m.debug_string();
            push_str(&mut s, d.as_str());
            proof {
                if i == 0 {
                    assert(s@ =~= texts[0]);
                } else {
                    assert(s@ =~= before + ", "@ + texts[i as int]);
                }
            }
            i = i + 1;
        }
        assert(texts.take(self@.1.len() as int) =~= texts);
        s
    }

    /// The length of the original list.
    pub fn len(&self) -> (n: usize)
        ensures
            n == self@.0.len(),
    {
        self.original_sequence.len()
    }

    pub fn is_empty(&self) -> (b: bool)
        ensures
            b == (self@.0.len() == 0),
    {
        self.original_sequence.len() == 0
    }

    /// The state reached by performing the resulting list on `initial_state`.
    pub fn apply_to_state(&self, initial_state: &State) -> (r: State)
        requires
            initial_state@.orientations_valid(),
            mixed_ops_valid(apply_mixed_modifiers(self@.0, self@.1)),
        ensures
            r@ == apply_mixed_ops(initial_state@, apply_mixed_modifiers(self@.0, self@.1)),
    {
        let operations = self.get_sequence();
        apply_mixed_operations(initial_state, &operations)
    }

    /// Whether some modifier replaces step `step`.
    pub fn is_modified(&self, step: usize) -> (b: bool)
        ensures
            b == mixed_step_modified(self@.1, step as int),
    {
        let mut i: usize = 0;
        while i < self.modifiers.len()
            invariant
                i <= self.modifiers@.len(),
                forall|k: int| 0 <= k < i ==> (#[trigger] self@.1[k]).spec_step() != step,
            decreases self.modifiers@.len() - i,
        {
            if self.modifiers[i].step() == step {
                return true;
            }
            i = i + 1;
        }
        false
    }

    /// One line per step of the resulting list, modified steps between `**`.
    pub fn to_display_string(&self) -> (s: String)
        requires
            mixed_ops_valid(apply_mixed_modifiers(self@.0, self@.1)),
        ensures
            s@ == mixed_modified_text(self@),
    {
        let ops = self.get_sequence();
        let ghost lines = Seq::new(ops@.len(), |i: int| mixed_modified_line(i, ops@[i], mixed_step_modified(self@.1, i)));
        let mut s = empty_string();
        let mut i: usize = 0;
        while i < ops.len()
            invariant
                i <= ops@.len(),
                mixed_ops_valid(ops@),
                lines == Seq::new(ops@.len(), |i: int| mixed_modified_line(i, ops@[i], mixed_step_modified(self@.1, i))),
                s@ == lines.take(i as int).flatten_alt(),
            decreases ops@.len() - i,
        {
            assert(lines.take(i + 1).drop_last() =~= lines.take(i as int));
            assert(ops@[i as int].valid());
            let modified = self.is_modified(i);
            push_str(&mut s, "Step ");
            push_decimal(&mut s, i + 1);
            push_str(&mut s, ": ");
            let t = ops[i].to_display_string();
            if modified {
                push_str(&mut s, "**");
                push_str(&mut s, t.as_str());
                push_str(&mut s, "**");
            } else {
                push_str(&mut s, t.as_str());
            }
            push_char(&mut s, '\n');
            assert(s@ =~= lines.take(i as int).flatten_alt() + lines[i as int]);
            i = i + 1;
        }
        assert(lines.take(ops@.len() as int) =~= lines);
        s
    }
}

} // verus!
