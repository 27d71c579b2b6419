use vstd::prelude::*;
use crate::inspection::edge_solver::{
    edge_op_displayable, edge_op_text, EdgeFlipOperation, EdgeOperation, EdgeSwapOperation,
};
use crate::text::{decimal, empty_string, push_char, push_decimal, push_str};

verus! {

/// Replacement of the edge swap at step `step` by `modifier`.
#[derive(Debug, Clone, Copy, PartialEq, Eq, Structural)]
pub struct EdgeSwapModifier {
    pub step: usize,
    pub modifier: EdgeSwapOperation,
}

/// Replacement of the flip at step `step` by `modifier`.
#[derive(Debug, Clone, Copy, PartialEq, Eq, Structural)]
pub struct EdgeFlipModifier {
    pub step: usize,
    pub modifier: EdgeFlipOperation,
}

/// A replacement of one step of an edge operation list.
#[derive(Debug, Clone, Copy, PartialEq, Eq, Structural)]
pub enum EdgeModifier {
    Swap(EdgeSwapModifier),
    Flip(EdgeFlipModifier),
}

impl EdgeModifier {
    pub open spec fn spec_step(self) -> usize {
        match self {
            EdgeModifier::Swap(m) => m.step,
            EdgeModifier::Flip(m) => m.step,
        }
    }

    pub open spec fn spec_operation(self) -> EdgeOperation {
        match self {
            EdgeModifier::Swap(m) => EdgeOperation::Swap(m.modifier),
            EdgeModifier::Flip(m) => EdgeOperation::Flip(m.modifier),
        }
    }

    /// The step that this modifier replaces.
    pub fn step(&self) -> (r: usize)
        ensures
            r == self.spec_step(),
    {
        match self {
            EdgeModifier::Swap(m) => m.step,
            EdgeModifier::Flip(m) => m.step,
        }
    }

    /// The operation that replaces the step.
    pub fn operation(&self) -> (r: EdgeOperation)
        ensures
            r == self.spec_operation(),
    {
        match self {
            EdgeModifier::Swap(m) => EdgeOperation::Swap(m.modifier),
            EdgeModifier::Flip(m) => EdgeOperation::Flip(m.modifier),
        }
    }
}

/// The modifier that puts `op` at step `step`.
pub open spec fn edge_modifier_for(step: usize, op: EdgeOperation) -> EdgeModifier {
    match op {
        EdgeOperation::Swap(o) => EdgeModifier::Swap(EdgeSwapModifier { step, modifier: o }),
        EdgeOperation::Flip(o) => EdgeModifier::Flip(EdgeFlipModifier { step, modifier: o }),
    }
}

/// The operation list with the modifiers applied in order; a modifier whose step
/// lies outside the list changes nothing, and a later modifier of the same step wins.
pub open spec fn apply_edge_modifiers(orig: Seq<EdgeOperation>, mods: Seq<EdgeModifier>) -> Seq<
    EdgeOperation,
>
    decreases mods.len(),
{
    if mods.len() == 0 {
        orig
    } else {
        let prev = apply_edge_modifiers(orig, mods.drop_last());
        let m = mods.last();
        if m.spec_step() < prev.len() {
            prev.update(m.spec_step() as int, m.spec_operation())
        } else {
            prev
        }
    }
}

/// A modifier made for step `s` and operation `op` puts `op` at step `s` and
/// changes nothing else (nothing at all for a step past the end).
pub proof fn lemma_single_edge_modifier(orig: Seq<EdgeOperation>, s: usize, op: EdgeOperation)
    ensures
        apply_edge_modifiers(orig, seq![edge_modifier_for(s, op)]) == if s < orig.len() {
            orig.update(s as int, op)
        } else {
            orig
        },
{
    let mods = seq![edge_modifier_for(s, op)];
    assert(mods.drop_last() =~= Seq::<EdgeModifier>::empty());
    assert(apply_edge_modifiers(orig, mods.drop_last()) == orig);
    assert(edge_modifier_for(s, op).spec_step() == s);
    assert(edge_modifier_for(s, op).spec_operation() == op);
}

pub proof fn lemma_apply_edge_modifiers_len(orig: Seq<EdgeOperation>, mods: Seq<EdgeModifier>)
    ensures
        apply_edge_modifiers(orig, mods).len() == orig.len(),
    decreases mods.len(),
{
    if mods.len() > 0 {
        lemma_apply_edge_modifiers_len(orig, mods.drop_last());
    }
}

/// Every operation of the list can be displayed.
pub open spec fn edge_list_displayable(ops: Seq<EdgeOperation>) -> bool {
    forall|i: int| 0 <= i < ops.len() ==> edge_op_displayable(#[trigger] ops[i])
}

pub proof fn lemma_edge_modifiers_displayable(orig: Seq<EdgeOperation>, mods: Seq<EdgeModifier>)
    requires
        edge_list_displayable(orig),
        forall|k: int| 0 <= k < mods.len() ==> edge_op_displayable((#[trigger] mods[k]).spec_operation()),
    ensures
        edge_list_displayable(apply_edge_modifiers(orig, mods)),
    decreases mods.len(),
{
    if mods.len() > 0 {
        lemma_edge_modifiers_displayable(orig, mods.drop_last());
    }
}

/// An operation list together with replacements of some of its steps.
#[derive(Debug, Clone)]
pub struct ModifiedEdgeSequence {
    pub original_sequence: Vec<EdgeOperation>,
    pub modifiers: Vec<EdgeModifier>,
}

impl View for ModifiedEdgeSequence {
    type V = (Seq<EdgeOperation>, Seq<EdgeModifier>);

    open spec fn view(&self) -> (Seq<EdgeOperation>, Seq<EdgeModifier>) {
        (self.original_sequence@, self.modifiers@)
    }
}

/// A copy of a list of edge operations.
pub fn copy_edge_ops(v: &Vec<EdgeOperation>) -> (r: Vec<EdgeOperation>)
    ensures
        r@ == v@,
{
    let mut r: Vec<EdgeOperation> = Vec::new();
    let mut i: usize = 0;
    while i < v.len()
        invariant
            i <= v.len(),
            r@ == v@.take(i as int),
        decreases v.len() - i,
    {
        r.push(v[i]);
        i = i + 1;
        assert(r@ =~= v@.take(i as int));
    }
    assert(v@.take(v.len() as int) =~= v@);
    r
}

/// The display line of step `i` (0-based) of a modified list: the operation
/// text, between `**` when the step is modified, followed by a newline.
pub open spec fn edge_modified_line(i: int, op: EdgeOperation, modified: bool) -> Seq<char> {
    "Step "@ + decimal((i + 1) as nat) + ": "@ + (if modified { "**"@ + edge_op_text(op) + "**"@ } else {
        edge_op_text(op)
    }) + seq!['\n']
}

/// Whether some modifier replaces step `step`.
pub open spec fn edge_step_modified(mods: Seq<EdgeModifier>, step: int) -> bool {
    exists|k: int| 0 <= k < mods.len() && (#[trigger] mods[k]).spec_step() == step
}

/// The display text of a modified list: one line per step of the resulting list.
pub open spec fn edge_modified_text(v: (Seq<EdgeOperation>, Seq<EdgeModifier>)) -> Seq<char> {
    let ops = apply_edge_modifiers(v.0, v.1);
    Seq::new(ops.len(), |i: int| edge_modified_line(i, ops[i], edge_step_modified(v.1, i))).flatten_alt()
}

impl ModifiedEdgeSequence {
    pub fn new(original_sequence: Vec<EdgeOperation>) -> (r: Self)
        ensures
            r@ == (original_sequence@, Seq::<EdgeModifier>::empty()),
    {
        Self { original_sequence, modifiers: Vec::new() }
    }

    pub fn add_modifier(&mut self, modifier: EdgeModifier)
        ensures
            final(self)@ == (old(self)@.0, old(self)@.1.push(modifier)),
    {
        self.modifiers.push(modifier);
    }

    /// The operation list with the modifiers applied; see [`apply_edge_modifiers`].
    pub fn get_sequence(&self) -> (r: Vec<EdgeOperation>)
        ensures
            r@ == apply_edge_modifiers(self@.0, self@.1),
    {
        let mut result = copy_edge_ops(&self.original_sequence);
        let mut i: usize = 0;
        while i < self.modifiers.len()
            invariant
                i <= self.modifiers@.len(),
                result@ == apply_edge_modifiers(self@.0, self@.1.take(i as int)),
            decreases self.modifiers@.len() - i,
        {
            assert(self@.1.take(i + 1).drop_last() =~= self@.1.take(i as int));
            let step = self.modifiers[i].step();
            if step < result.len() {
                result.set(step, self.modifiers[i].operation());
            }
            i = i + 1;
        }
        assert(self@.1.take(self@.1.len() as int) =~= self@.1);
        result
    }

    /// Whether some modifier replaces step `step`.
    pub fn is_modified(&self, step: usize) -> (b: bool)
        ensures
            b == edge_step_modified(self@.1, step as int),
    {
        let mut i: usize = 0;
        while i < self.modifiers.len()
            invariant
                i <= self.modifiers@.len(),
                forall|k: int| 0 <= k < i ==> (#[trigger] self@.1[k]).spec_step() != step,
            decreases self.modifiers@.len() - i,
        {
            if self.modifiers[i].step() == step {
                return true;
            }
            i = i + 1;
        }
        false
    }

    /// One line per step of the resulting list, modified steps between `**`.
    pub fn to_display_string(&self) -> (s: String)
        requires
            edge_list_displayable(self@.0),
            forall|k: int| 0 <= k < self@.1.len() ==> edge_op_displayable((#[trigger] self@.1[k]).spec_operation()),
        ensures
            s@ == edge_modified_text(self@),
    {
        let ops = self.get_sequence();
        proof { lemma_edge_modifiers_displayable(self@.0, self@.1); }
        let ghost lines = Seq::new(ops@.len(), |i: int| edge_modified_line(i, ops@[i], edge_step_modified(self@.1, i)));
        let mut s = empty_string();
        let mut i: usize = 0;
        while i < ops.len()
            invariant
                i <= ops@.len(),
                lines == Seq::new(ops@.len(), |i: int| edge_modified_line(i, ops@[i], edge_step_modified(self@.1, i))),
                edge_list_displayable(ops@),
                s@ == lines.take(i as int).flatten_alt(),
            decreases ops@.len() - i,
        {
            assert(lines.take(i + 1).drop_last() =~= lines.take(i as int));
            let modified = self.is_modified(i);
            push_str(&mut s, "Step ");
            push_decimal(&mut s, i + 1);
            push_str(&mut s, ": ");
            let t = ops[i].to_display_string();
            if modified {
                push_str(&mut s, "**");
                push_str(&mut s, t.as_str());
                push_str(&mut s, "**");
            } else {
                push_str(&mut s, t.as_str());
            }
            push_char(&mut s, '\n');
            assert(s@ =~= lines.take(i as int).flatten_alt() + lines[i as int]);
            i = i + 1;
        }
        assert(lines.take(ops@.len() as int) =~= lines);
        s
    }
}

} // verus!
