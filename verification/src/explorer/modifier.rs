use vstd::prelude::*;
use crate::inspection::corner_solver::{
    corner_op_text, CornerOperation, CornerSwapOperation, CornerTwistOperation,
};
use crate::text::{decimal, empty_string, push_char, push_decimal, push_str};

verus! {

/// Replacement of the swap at step `step` by `modifier`.
#[derive(Debug, Clone, Copy, PartialEq, Eq, Structural)]
pub struct SwapModifier {
    pub step: usize,
    pub modifier: CornerSwapOperation,
}

/// Replacement of the twist at step `step` by `modifier`.
#[derive(Debug, Clone, Copy, PartialEq, Eq, Structural)]
pub struct TwistModifier {
    pub step: usize,
    pub modifier: CornerTwistOperation,
}

/// A replacement of one step of a corner operation list.
#[derive(Debug, Clone, Copy, PartialEq, Eq, Structural)]
pub enum CornerModifier {
    Swap(SwapModifier),
    Twist(TwistModifier),
}

impl CornerModifier {
    pub open spec fn spec_step(self) -> usize {
        match self {
            CornerModifier::Swap(m) => m.step,
            CornerModifier::Twist(m) => m.step,
        }
    }

    pub open spec fn spec_operation(self) -> CornerOperation {
        match self {
            CornerModifier::Swap(m) => CornerOperation::Swap(m.modifier),
            CornerModifier::Twist(m) => CornerOperation::Twist(m.modifier),
        }
    }

    /// The step that this modifier replaces.
    pub fn step(&self) -> (r: usize)
        ensures
            r == self.spec_step(),
    {
        match self {
            CornerModifier::Swap(m) => m.step,
            CornerModifier::Twist(m) => m.step,
        }
    }

    /// The operation that replaces the step.
    pub fn operation(&self) -> (r: CornerOperation)
        ensures
            r == self.spec_operation(),
    {
        match self {
            CornerModifier::Swap(m) => CornerOperation::Swap(m.modifier),
            CornerModifier::Twist(m) => CornerOperation::Twist(m.modifier),
        }
    }
}

/// The modifier that puts `op` at step `step`.
pub open spec fn corner_modifier_for(step: usize, op: CornerOperation) -> CornerModifier {
    match op {
        CornerOperation::Swap(o) => CornerModifier::Swap(SwapModifier { step, modifier: o }),
        CornerOperation::Twist(o) => CornerModifier::Twist(TwistModifier { step, modifier: o }),
    }
}

/// The operation list with the modifiers applied in order; a modifier whose step
/// lies outside the list changes nothing, and a later modifier of the same step wins.
pub open spec fn apply_corner_modifiers(orig: Seq<CornerOperation>, mods: Seq<CornerModifier>) -> Seq<
    CornerOperation,
>
    decreases mods.len(),
{
    if mods.len() == 0 {
        orig
    } else {
        let prev = apply_corner_modifiers(orig, mods.drop_last());
        let m = mods.last();
        if m.spec_step() < prev.len() {
            prev.update(m.spec_step() as int, m.spec_operation())
        } else {
            prev
        }
    }
}

/// A modifier made for step `s` and operation `op` puts `op` at step `s` and
/// changes nothing else (nothing at all for a step past the end).
pub proof fn lemma_single_corner_modifier(orig: Seq<CornerOperation>, s: usize, op: CornerOperation)
    ensures
        apply_corner_modifiers(orig, seq![corner_modifier_for(s, op)]) == if s < orig.len() {
            orig.update(s as int, op)
        } else {
            orig
        },
{
    let mods = seq![corner_modifier_for(s, op)];
    assert(mods.drop_last() =~= Seq::<CornerModifier>::empty());
    assert(apply_corner_modifiers(orig, mods.drop_last()) == orig);
    assert(corner_modifier_for(s, op).spec_step() == s);
    assert(corner_modifier_for(s, op).spec_operation() == op);
}

pub proof fn lemma_apply_corner_modifiers_len(orig: Seq<CornerOperation>, mods: Seq<CornerModifier>)
    ensures
        apply_corner_modifiers(orig, mods).len() == orig.len(),
    decreases mods.len(),
{
    if mods.len() > 0 {
        lemma_apply_corner_modifiers_len(orig, mods.drop_last());
    }
}

/// An operation list together with replacements of some of its steps.
#[derive(Debug, Clone)]
pub struct ModifiedSequence {
    pub original_sequence: Vec<CornerOperation>,
    pub modifiers: Vec<CornerModifier>,
}

impl View for ModifiedSequence {
    type V = (Seq<CornerOperation>, Seq<CornerModifier>);

    open spec fn view(&self) -> (Seq<CornerOperation>, Seq<CornerModifier>) {
        (self.original_sequence@, self.modifiers@)
    }
}

/// A copy of a list of corner operations.
pub fn copy_corner_ops(v: &Vec<CornerOperation>) -> (r: Vec<CornerOperation>)
    ensures
        r@ == v@,
{
    let mut r: Vec<CornerOperation> = Vec::new();
    let mut i: usize = 0;
    while i < v.len()
        invariant
            i <= v.len(),
            r@ == v@.take(i as int),
        decreases v.len() - i,
    {
        r.push(v[i]);
        i = i + 1;
        assert(r@ =~= v@.take(i as int));
    }
    assert(v@.take(v.len() as int) =~= v@);
    r
}

/// The display line of step `i` (0-based) of a modified list: the operation
/// text, between `**` when the step is modified, followed by a newline.
pub open spec fn corner_modified_line(i: int, op: CornerOperation, modified: bool) -> Seq<char> {
    "Step "@ + decimal((i + 1) as nat) + ": "@ + (if modified { "**"@ + corner_op_text(op) + "**"@ } else {
        corner_op_text(op)
    }) + seq!['\n']
}

/// Whether some modifier replaces step `step`.
pub open spec fn corner_step_modified(mods: Seq<CornerModifier>, step: int) -> bool {
    exists|k: int| 0 <= k < mods.len() && (#[trigger] mods[k]).spec_step() == step
}

/// The display text of a modified list: one line per step of the resulting list.
pub open spec fn corner_modified_text(v: (Seq<CornerOperation>, Seq<CornerModifier>)) -> Seq<char> {
    let ops = apply_corner_modifiers(v.0, v.1);
    Seq::new(ops.len(), |i: int| corner_modified_line(i, ops[i], corner_step_modified(v.1, i))).flatten_alt()
}

impl ModifiedSequence {
    pub fn new(original_sequence: Vec<CornerOperation>) -> (r: Self)
        ensures
            r@ == (original_sequence@, Seq::<CornerModifier>::empty()),
    {
        Self { original_sequence, modifiers: Vec::new() }
    }

    pub fn add_modifier(&mut self, modifier: CornerModifier)
        ensures
            final(self)@ == (old(self)@.0, old(self)@.1.push(modifier)),
    {
        self.modifiers.push(modifier);
    }

    /// The operation list with the modifiers applied; see [`apply_corner_modifiers`].
    pub fn get_sequence(&self) -> (r: Vec<CornerOperation>)
        ensures
            r@ == apply_corner_modifiers(self@.0, self@.1),
    {
        let mut result = copy_corner_ops(&self.original_sequence);
        let mut i: usize = 0;
        while i < self.modifiers.len()
            invariant
                i <= self.modifiers@.len(),
                result@ == apply_corner_modifiers(self@.0, self@.1.take(i as int)),
            decreases self.modifiers@.len() - i,
        {
            assert(self@.1.take(i + 1).drop_last() =~= self@.1.take(i as int));
            let step = self.modifiers[i].step();
            if step < result.len() {
                result.set(step, self.modifiers[i].operation());
            }
            i = i + 1;
        }
        assert(self@.1.take(self@.1.len() as int) =~= self@.1);
        result
    }

    /// Whether some modifier replaces step `step`.
    pub fn is_modified(&self, step: usize) -> (b: bool)
        ensures
            b == corner_step_modified(self@.1, step as int),
    {
        let mut i: usize = 0;
        while i < self.modifiers.len()
            invariant
                i <= self.modifiers@.len(),
                forall|k: int| 0 <= k < i ==> (#[trigger] self@.1[k]).spec_step() != step,
            decreases self.modifiers@.len() - i,
        {
            if self.modifiers[i].step() == step {
                return true;
            }
            i = i + 1;
        }
        false
    }

    /// One line per step of the resulting list, modified steps between `**`.
    pub fn to_display_string(&self) -> (s: String)
        ensures
            s@ == corner_modified_text(self@),
    {
        let ops = self.get_sequence();
        let ghost lines = Seq::new(ops@.len(), |i: int| corner_modified_line(i, ops@[i], corner_step_modified(self@.1, i)));
        let mut s = empty_string();
        let mut i: usize = 0;
        while i < ops.len()
            invariant
                i <= ops@.len(),
                lines == Seq::new(ops@.len(), |i: int| corner_modified_line(i, ops@[i], corner_step_modified(self@.1, i))),
                s@ == lines.take(i as int).flatten_alt(),
            decreases ops@.len() - i,
        {
            assert(lines.take(i + 1).drop_last() =~= lines.take(i as int));
            let modified = self.is_modified(i);
            push_str(&mut s, "Step ");
            push_decimal(&mut s, i + 1);
            push_str(&mut s, ": ");
            let t = ops[i].to_display_string();
            if modified {
                push_str(&mut s, "**");
                push_str(&mut s, t.as_str());
                push_str(&mut s, "**");
            } else {
                push_str(&mut s, t.as_str());
            }
            push_char(&mut s, '\n');
            assert(s@ =~= lines.take(i as int).flatten_alt() + lines[i as int]);
            i = i + 1;
        }
        assert(lines.take(ops@.len() as int) =~= lines);
        s
    }
}

} // verus!
