use vstd::prelude::*;
use crate::cube::state::{all_below, identity_seq, is_permutation, zero_seq, State, StateView};
use crate::text::{decimal, empty_string, join_with, lemma_join_with_push, push_char, push_decimal, push_str, step_line};

verus! {

/// The corner slot that the neighbourhood searches put at the start of their
/// swap candidates (UFR).
pub const CORNER_BUFFER: usize = 2;

/// The corner slot that the corner solution swaps through (UBL).
pub const CORNER_SOLVER_BUFFER: usize = 0;

/// Exchange of the corners in two slots, recording the twist `orientation`
/// that the first slot held before the exchange.
#[derive(Debug, Clone, Copy, PartialEq, Eq, Structural)]
pub struct CornerSwapOperation {
    pub target1: usize,
    pub target2: usize,
    pub orientation: u8,
}

/// Untwisting of the corner in one slot by `orientation` (1 or 2).
#[derive(Debug, Clone, Copy, PartialEq, Eq, Structural)]
pub struct CornerTwistOperation {
    pub target: usize,
    pub orientation: u8,
}

/// A corner operation: a swap or a twist.
#[derive(Debug, Clone, Copy, PartialEq, Eq, Structural)]
pub enum CornerOperation {
    Swap(CornerSwapOperation),
    Twist(CornerTwistOperation),
}

/// The effect of a swap: the two corners change places; the first slot's new
/// twist is `(orientation + co[target2]) % 3`, the second's `(co[target1] + 3 - orientation) % 3`.
pub open spec fn corner_swap_view(s: StateView, op: CornerSwapOperation) -> StateView {
    let t1 = op.target1 as int;
    let t2 = op.target2 as int;
    let a = ((op.orientation + s.co[t2]) % 3) as u8;
    let b = ((s.co[t1] + 3 - op.orientation) % 3) as u8;
    StateView {
        cp: s.cp.update(t1, s.cp[t2]).update(t2, s.cp[t1]),
        co: s.co.update(t1, a).update(t2, b),
        ep: s.ep,
        eo: s.eo,
    }
}

/// The effect of a twist: `co[target]` becomes `(co[target] + 3 - orientation) % 3`.
pub open spec fn corner_twist_view(s: StateView, op: CornerTwistOperation) -> StateView {
    let t = op.target as int;
    StateView { co: s.co.update(t, ((s.co[t] + 3 - op.orientation) % 3) as u8), ..s }
}

pub open spec fn corner_op_view(s: StateView, op: CornerOperation) -> StateView {
    match op {
        CornerOperation::Swap(o) => corner_swap_view(s, o),
        CornerOperation::Twist(o) => corner_twist_view(s, o),
    }
}

/// The state after the operations of `ops`, in order.
pub open spec fn apply_corner_ops(s: StateView, ops: Seq<CornerOperation>) -> StateView
    decreases ops.len(),
{
    if ops.len() == 0 {
        s
    } else {
        corner_op_view(apply_corner_ops(s, ops.drop_last()), ops.last())
    }
}

impl CornerSwapOperation {
    /// Slots in range and a twist value below 3.
    pub open spec fn valid(self) -> bool {
        self.target1 < 8 && self.target2 < 8 && self.orientation < 3
    }
}

impl CornerTwistOperation {
    pub open spec fn valid(self) -> bool {
        self.target < 8 && self.orientation < 3
    }
}

impl CornerOperation {
    pub open spec fn valid(self) -> bool {
        match self {
            CornerOperation::Swap(o) => o.valid(),
            CornerOperation::Twist(o) => o.valid(),
        }
    }
}

/// Every operation of the list is valid.
pub open spec fn corner_ops_valid(ops: Seq<CornerOperation>) -> bool {
    forall|i: int| 0 <= i < ops.len() ==> (#[trigger] ops[i]).valid()
}

/// Valid operations keep corner twists in range and leave the edges alone.
pub proof fn lemma_corner_op_keeps_orientations(s: StateView, op: CornerOperation)
    requires
        all_below(s.co, 3),
        s.co.len() == 8,
        s.cp.len() == 8,
        op.valid(),
    ensures
        all_below(corner_op_view(s, op).co, 3),
        s.orientations_valid() ==> corner_op_view(s, op).orientations_valid(),
        corner_op_view(s, op).co.len() == 8,
        corner_op_view(s, op).cp.len() == s.cp.len(),
        corner_op_view(s, op).ep == s.ep,
        corner_op_view(s, op).eo == s.eo,
{
}

pub proof fn lemma_apply_corner_ops_valid(s: StateView, ops: Seq<CornerOperation>)
    requires
        all_below(s.co, 3),
        s.co.len() == 8,
        s.cp.len() == 8,
        corner_ops_valid(ops),
    ensures
        all_below(apply_corner_ops(s, ops).co, 3),
        s.orientations_valid() ==> apply_corner_ops(s, ops).orientations_valid(),
        apply_corner_ops(s, ops).co.len() == 8,
        apply_corner_ops(s, ops).cp.len() == s.cp.len(),
        apply_corner_ops(s, ops).ep == s.ep,
        apply_corner_ops(s, ops).eo == s.eo,
    decreases ops.len(),
{
    if ops.len() > 0 {
        lemma_apply_corner_ops_valid(s, ops.drop_last());
        lemma_corner_op_keeps_orientations(apply_corner_ops(s, ops.drop_last()), ops.last());
    }
}

impl CornerSwapOperation {
    pub fn new(target1: usize, target2: usize, orientation: u8) -> (r: Self)
        ensures
            r == (CornerSwapOperation { target1, target2, orientation }),
    {
        Self { target1, target2, orientation }
    }

    /// See [`corner_swap_view`].
    pub fn apply(&self, state: &State) -> (r: State)
        requires
            self.target1 < 8,
            self.target2 < 8,
            self.orientation + state.co[self.target2 as int] <= 255,
            self.orientation <= state.co[self.target1 as int] + 3 <= 255,
        ensures
            r@ == corner_swap_view(state@, *self),
    {
        let mut new_cp = state.cp;
        let mut new_co = state.co;
        let t1 = self.target1;
        let t2 = self.target2;
        let c1 = new_cp[t1];
        let c2 = new_cp[t2];
        new_cp[t1] = c2;
        new_cp[t2] = c1;
        let new_co_target1 = (self.orientation + new_co[t2]) % 3;
        let new_co_target2 = (new_co[t1] + 3 - self.orientation) % 3;
        new_co[t1] = new_co_target1;
        new_co[t2] = new_co_target2;
        let r = State::new(new_cp, new_co, state.ep, state.eo);
        assert(r@ =~= corner_swap_view(state@, *self));
        r
    }
}

impl CornerTwistOperation {
    pub fn new(target: usize, orientation: u8) -> (r: Self)
        ensures
            r == (CornerTwistOperation { target, orientation }),
    {
        Self { target, orientation }
    }

    /// See [`corner_twist_view`].
    pub fn apply(&self, state: &State) -> (r: State)
        requires
            self.target < 8,
            self.orientation <= state.co[self.target as int] + 3 <= 255,
        ensures
            r@ == corner_twist_view(state@, *self),
    {
        let mut new_co = state.co;
        let t = self.target;
        new_co[t] = (new_co[t] + 3 - self.orientation) % 3;
        let r = State::new(state.cp, new_co, state.ep, state.eo);
        assert(r@ =~= corner_twist_view(state@, *self));
        r
    }
}

impl CornerOperation {
    /// The operation's own applicability condition on a state.
    pub open spec fn applicable(self, s: StateView) -> bool {
        match self {
            CornerOperation::Swap(o) => o.target1 < 8 && o.target2 < 8 && o.orientation + s.co[o.target2 as int]
                <= 255 && o.orientation <= s.co[o.target1 as int] + 3 <= 255,
            CornerOperation::Twist(o) => o.target < 8 && o.orientation <= s.co[o.target as int] + 3
                <= 255,
        }
    }

    pub fn apply(&self, state: &State) -> (r: State)
        requires
            self.applicable(state@),
        ensures
            r@ == corner_op_view(state@, *self),
    {
        match self {
            CornerOperation::Swap(op) => op.apply(state),
            CornerOperation::Twist(op) => op.apply(state),
        }
    }
}

/// Applies a list of corner operations in order.
pub fn apply_corner_operations(state: &State, ops: &Vec<CornerOperation>) -> (r: State)
    requires
        all_below(state@.co, 3),
        corner_ops_valid(ops@),
    ensures
        r@ == apply_corner_ops(state@, ops@),
        all_below(r@.co, 3),
        state@.orientations_valid() ==> r@.orientations_valid(),
{
    let mut r = *state;
    let mut i: usize = 0;
    while i < ops.len()
        invariant
            i <= ops.len(),
            all_below(state@.co, 3),
            corner_ops_valid(ops@),
            r@ == apply_corner_ops(state@, ops@.take(i as int)),
            all_below(r@.co, 3),
            state@.orientations_valid() ==> r@.orientations_valid(),
        decreases ops.len() - i,
    {
        assert(ops@.take(i + 1).drop_last() =~= ops@.take(i as int));
        assert(ops@[i as int].valid());
        proof { lemma_corner_op_keeps_orientations(r@, ops@[i as int]); }
        r = ops[i].apply(&r);
        i = i + 1;
    }
    assert(ops@.take(ops.len() as int) =~= ops@);
    r
}

/// The first slot from `i` on whose corner is not its own, or -1.
pub open spec fn first_misplaced_from(cp: Seq<u8>, i: int) -> int
    decreases cp.len() - i,
{
    if i < 0 || i >= cp.len() {
        -1
    } else if cp[i] != i {
        i
    } else {
        first_misplaced_from(cp, i + 1)
    }
}

/// The swap that the corner solution performs next in state `s`: exchange the
/// buffer with the slot where the buffer's corner belongs, or, when the buffer
/// holds its own corner, with the first misplaced slot (starting a new cycle).
pub open spec fn next_corner_swap(s: StateView) -> CornerOperation {
    let b = CORNER_SOLVER_BUFFER as int;
    let target = if s.cp[b] != b { s.cp[b] as int } else { first_misplaced_from(s.cp, 0) };
    CornerOperation::Swap(CornerSwapOperation { target1: CORNER_SOLVER_BUFFER, target2: target as usize, orientation: s.co[b] })
}

/// The twists that fix the nonzero orientations among the first `n` slots, in slot order.
pub open spec fn corner_twist_ops(co: Seq<u8>, n: int) -> Seq<CornerOperation>
    decreases n,
{
    if n <= 0 {
        Seq::empty()
    } else {
        let prev = corner_twist_ops(co, n - 1);
        if co[n - 1] != 0 {
            prev.push(CornerOperation::Twist(CornerTwistOperation { target: (n - 1) as usize, orientation: co[n - 1] }))
        } else {
            prev
        }
    }
}

/// The number of misplaced corners outside the buffer slot.
pub open spec fn corner_misplaced_count(cp: Seq<u8>) -> int {
    (if cp[1] != 1 { 1int } else { 0 }) + (if cp[2] != 2 { 1int } else { 0 }) + (if cp[3] != 3 { 1int } else { 0 })
        + (if cp[4] != 4 { 1int } else { 0 }) + (if cp[5] != 5 { 1int } else { 0 }) + (if cp[6] != 6 { 1int } else { 0 })
        + (if cp[7] != 7 { 1int } else { 0 })
}

/// The measure that every corner swap of the solution decreases.
pub open spec fn corner_measure(cp: Seq<u8>) -> int {
    2 * corner_misplaced_count(cp) + if cp[CORNER_SOLVER_BUFFER as int] == CORNER_SOLVER_BUFFER { 1int } else { 0 }
}

/// What the corner solution is: swaps through the buffer, each the next swap of
/// the state reached so far, until every corner is in its own slot, then the
/// twists of the remaining orientations in slot order.
pub open spec fn is_corner_solution(s: StateView, ops: Seq<CornerOperation>) -> bool {
    exists|n: int|
        #![trigger ops.take(n)]
        0 <= n <= ops.len() && (forall|k: int|
            0 <= k < n ==> (apply_corner_ops(s, #[trigger] ops.take(k)).cp != identity_seq(8) && ops[k]
                == next_corner_swap(apply_corner_ops(s, ops.take(k))))) && apply_corner_ops(s, ops.take(n)).cp
            == identity_seq(8) && ops.skip(n) == corner_twist_ops(apply_corner_ops(s, ops.take(n)).co, 8)
}

/// The swap phase of a corner solution of `s` that ends after `n` swaps.
pub open spec fn corner_solution_with_swaps(s: StateView, ops: Seq<CornerOperation>, n: int) -> bool {
    0 <= n <= ops.len() && (forall|k: int|
        0 <= k < n ==> (apply_corner_ops(s, #[trigger] ops.take(k)).cp != identity_seq(8) && ops[k]
            == next_corner_swap(apply_corner_ops(s, ops.take(k))))) && apply_corner_ops(s, ops.take(n)).cp
        == identity_seq(8) && ops.skip(n) == corner_twist_ops(apply_corner_ops(s, ops.take(n)).co, 8)
}

proof fn lemma_corner_solution_prefixes(s: StateView, a: Seq<CornerOperation>, b: Seq<CornerOperation>, na: int, nb: int, k: int)
    requires
        corner_solution_with_swaps(s, a, na),
        corner_solution_with_swaps(s, b, nb),
        0 <= k <= na,
        k <= nb,
    ensures
        a.take(k) == b.take(k),
    decreases k,
{
    if k > 0 {
        lemma_corner_solution_prefixes(s, a, b, na, nb, k - 1);
        assert(a[k - 1] == next_corner_swap(apply_corner_ops(s, a.take(k - 1))));
        assert(b[k - 1] == next_corner_swap(apply_corner_ops(s, b.take(k - 1))));
        assert(a.take(k) =~= a.take(k - 1).push(a[k - 1]));
        assert(b.take(k) =~= b.take(k - 1).push(b[k - 1]));
    }
}

/// A state has exactly one corner solution.
pub proof fn lemma_corner_solution_unique(s: StateView, a: Seq<CornerOperation>, b: Seq<CornerOperation>)
    requires
        is_corner_solution(s, a),
        is_corner_solution(s, b),
    ensures
        a == b,
{
    let na = choose|n: int| #![trigger a.take(n)] corner_solution_with_swaps(s, a, n);
    let nb = choose|n: int| #![trigger b.take(n)] corner_solution_with_swaps(s, b, n);
    assert(corner_solution_with_swaps(s, a, na));
    assert(corner_solution_with_swaps(s, b, nb));
    if na < nb {
        lemma_corner_solution_prefixes(s, a, b, na, nb, na);
        assert(apply_corner_ops(s, b.take(na)).cp != identity_seq(8));
    } else if nb < na {
        lemma_corner_solution_prefixes(s, a, b, na, nb, nb);
        assert(apply_corner_ops(s, a.take(nb)).cp != identity_seq(8));
    } else {
        lemma_corner_solution_prefixes(s, a, b, na, nb, na);
        assert(a =~= a.take(na) + a.skip(na));
        assert(b =~= b.take(nb) + b.skip(nb));
    }
}

/// A swap that records the twist its first slot holds exchanges the two corners
/// and carries both twists onto the first slot: the second slot ends untwisted,
/// the first with the sum of the two twists; the other slots are untouched.
pub proof fn lemma_corner_swap_carries_twist(s: StateView, t1: int, t2: int)
    requires
        s.cp.len() == 8,
        s.co.len() == 8,
        all_below(s.co, 3),
        0 <= t1 < 8,
        0 <= t2 < 8,
        t1 != t2,
    ensures
        ({
            let r = corner_swap_view(
                s,
                CornerSwapOperation { target1: t1 as usize, target2: t2 as usize, orientation: s.co[t1] },
            );
            &&& r.cp[t1] == s.cp[t2]
            &&& r.cp[t2] == s.cp[t1]
            &&& r.co[t2] == 0
            &&& r.co[t1] == (s.co[t1] + s.co[t2]) % 3
            &&& forall|i: int| 0 <= i < 8 && i != t1 && i != t2 ==> r.cp[i] == s.cp[i] && r.co[i] == s.co[i]
            &&& r.ep == s.ep && r.eo == s.eo
        }),
{
}

/// A twist by the twist a slot holds untwists that slot and nothing else; a
/// twist by 1 and one by 2 of the same slot undo each other.
pub proof fn lemma_corner_twist_untwists(s: StateView, t: int)
    requires
        s.co.len() == 8,
        all_below(s.co, 3),
        0 <= t < 8,
    ensures
        corner_twist_view(s, CornerTwistOperation { target: t as usize, orientation: s.co[t] }).co == s.co.update(t, 0),
        corner_twist_view(
            corner_twist_view(s, CornerTwistOperation { target: t as usize, orientation: 1 }),
            CornerTwistOperation { target: t as usize, orientation: 2 },
        ) == s,
{
    let s1 = corner_twist_view(s, CornerTwistOperation { target: t as usize, orientation: 1 });
    let s2 = corner_twist_view(s1, CornerTwistOperation { target: t as usize, orientation: 2 });
    assert(s2.co =~= s.co);
    assert(corner_twist_view(s, CornerTwistOperation { target: t as usize, orientation: s.co[t] }).co =~= s.co.update(t, 0));
}

/// The twists that end a corner solution are twists only, and there are none
/// when no slot is twisted.
pub proof fn lemma_corner_twist_ops_shape(co: Seq<u8>, n: int)
    ensures
        forall|i: int| 0 <= i < corner_twist_ops(co, n).len() ==> #[trigger] corner_twist_ops(co, n)[i] is Twist,
        (forall|i: int| 0 <= i < n ==> co[i] == 0) ==> corner_twist_ops(co, n).len() == 0,
    decreases n,
{
    if n > 0 {
        lemma_corner_twist_ops_shape(co, n - 1);
    }
}

/// Every swap of a corner solution goes through the solver's buffer and records
/// the twist that the buffer slot holds just before it.
pub proof fn lemma_corner_solution_swaps_record_buffer(s: StateView, ops: Seq<CornerOperation>)
    requires
        is_corner_solution(s, ops),
    ensures
        forall|i: int|
            0 <= i < ops.len() ==> (#[trigger] ops[i] matches CornerOperation::Swap(o) ==> o.target1
                == CORNER_SOLVER_BUFFER && o.orientation == apply_corner_ops(s, ops.take(i)).co[CORNER_SOLVER_BUFFER as int]),
{
    let n = choose|n: int| #![trigger ops.take(n)] corner_solution_with_swaps(s, ops, n);
    assert(corner_solution_with_swaps(s, ops, n));
    let st = apply_corner_ops(s, ops.take(n));
    assert forall|i: int| 0 <= i < ops.len() implies (#[trigger] ops[i] matches CornerOperation::Swap(o) ==> o.target1
        == CORNER_SOLVER_BUFFER && o.orientation == apply_corner_ops(s, ops.take(i)).co[CORNER_SOLVER_BUFFER as int]) by {
        if i < n {
            assert(ops[i] == next_corner_swap(apply_corner_ops(s, ops.take(i))));
        } else {
            lemma_corner_twist_ops_shape(st.co, 8);
            assert(ops[i] == ops.skip(n)[i - n]);
            assert(ops.skip(n) == corner_twist_ops(st.co, 8));
            assert(corner_twist_ops(st.co, 8)[i - n] is Twist);
        }
    }
}

/// A cube whose only corner defect is two corners exchanged through the buffer,
/// with twists that cancel, is solved by that one swap and no twist.
pub proof fn lemma_corner_buffer_two_cycle(s: StateView, t: int, ops: Seq<CornerOperation>)
    requires
        is_corner_solution(s, ops),
        0 < t < 8,
        s.cp == identity_seq(8).update(0, t as u8).update(t, 0u8),
        s.co.len() == 8,
        all_below(s.co, 3),
        forall|i: int| 0 <= i < 8 && i != 0 && i != t ==> s.co[i] == 0,
        (s.co[0] + s.co[t]) % 3 == 0,
    ensures
        ops == seq![
            CornerOperation::Swap(CornerSwapOperation { target1: 0, target2: t as usize, orientation: s.co[0] }),
        ],
{
    let b = seq![
        CornerOperation::Swap(CornerSwapOperation { target1: 0, target2: t as usize, orientation: s.co[0] }),
    ];
    assert(b.take(0) =~= Seq::<CornerOperation>::empty());
    assert(b.take(1) =~= b);
    assert(b.skip(1) =~= Seq::<CornerOperation>::empty());
    assert(b.drop_last() =~= Seq::<CornerOperation>::empty());
    let r = apply_corner_ops(s, b);
    assert(r == corner_swap_view(s, CornerSwapOperation { target1: 0, target2: t as usize, orientation: s.co[0] }));
    assert(s.cp[0] == t);
    assert(s.cp[t] == 0);
    assert(r.cp =~= identity_seq(8));
    assert(s.cp != identity_seq(8)) by {
        assert(s.cp[0] != identity_seq(8)[0]);
    }
    lemma_corner_twist_ops_shape(r.co, 8);
    assert(corner_twist_ops(r.co, 8) =~= Seq::<CornerOperation>::empty());
    assert(b[0] == next_corner_swap(apply_corner_ops(s, b.take(0))));
    assert(corner_solution_with_swaps(s, b, 1));
    assert(is_corner_solution(s, b));
    lemma_corner_solution_unique(s, ops, b);
}

proof fn lemma_swap_step(s: StateView)
    requires
        is_permutation(s.cp),
        s.cp.len() == 8,
        s.co.len() == 8,
        all_below(s.co, 3),
        s.cp != identity_seq(8),
    ensures
        ({
            let op = next_corner_swap(s);
            let t = corner_op_view(s, op);
            &&& op.valid()
            &&& op.applicable(s)
            &&& is_permutation(t.cp)
            &&& t.cp.len() == 8
            &&& t.co.len() == 8
            &&& all_below(t.co, 3)
            &&& corner_measure(t.cp) < corner_measure(s.cp)
            &&& 0 <= corner_measure(t.cp)
        }),
{
    let b = CORNER_SOLVER_BUFFER as int;
    if s.cp[b] == b {
        lemma_first_misplaced(s.cp, 0);
        let i = first_misplaced_from(s.cp, 0);
        if i == -1 {
            assert(s.cp =~= identity_seq(8));
        }
        assert(i != b);
        assert(s.cp[i] != b);
    } else {
        let t = s.cp[b] as int;
        assert(s.cp[t] != t);
    }
    let op = next_corner_swap(s);
    let t = corner_op_view(s, op);
    assert forall|i: int, j: int| 0 <= i < 8 && 0 <= j < 8 && i != j implies #[trigger] t.cp[i] != #[trigger] t.cp[j] by {
    }
}

proof fn lemma_first_misplaced(cp: Seq<u8>, i: int)
    requires
        0 <= i <= cp.len(),
    ensures
        first_misplaced_from(cp, i) == -1 ==> forall|k: int| i <= k < cp.len() ==> cp[k] == k,
        first_misplaced_from(cp, i) != -1 ==> i <= first_misplaced_from(cp, i) < cp.len() && cp[first_misplaced_from(cp, i)]
            != first_misplaced_from(cp, i) && forall|k: int| i <= k < first_misplaced_from(cp, i) ==> cp[k] == k,
    decreases cp.len() - i,
{
    if i < cp.len() {
        lemma_first_misplaced(cp, i + 1);
    }
}

/// Searches the first slot whose corner is not its own.
fn find_next_misplaced_cp(cp: &[u8; 8]) -> (r: Option<usize>)
    ensures
        match r {
            Some(i) => i < 8 && i as int == first_misplaced_from(cp@, 0),
            None => first_misplaced_from(cp@, 0) == -1,
        },
{
    let mut i: usize = 0;
    while i < 8
        invariant
            i <= 8,
            first_misplaced_from(cp@, 0) == first_misplaced_from(cp@, i as int),
        decreases 8 - i,
    {
        if cp[i] != i as u8 {
            return Some(i);
        }
        i = i + 1;
    }
    None
}

/// Performing `a` and then `b` is performing `a + b`.
pub proof fn lemma_apply_corner_ops_append(s: StateView, a: Seq<CornerOperation>, b: Seq<CornerOperation>)
    ensures
        apply_corner_ops(s, a + b) == apply_corner_ops(apply_corner_ops(s, a), b),
    decreases b.len(),
{
    if b.len() == 0 {
        assert(a + b =~= a);
    } else {
        assert((a + b).drop_last() =~= a + b.drop_last());
        lemma_apply_corner_ops_append(s, a, b.drop_last());
    }
}

proof fn lemma_corner_solution_concat(s: StateView, swaps: Seq<CornerOperation>, twists: Seq<CornerOperation>)
    requires
        all_below(s.co, 3),
        s.co.len() == 8,
        s.cp.len() == 8,
        corner_ops_valid(swaps),
        corner_ops_valid(twists),
        apply_corner_ops(s, swaps).cp == identity_seq(8),
        forall|k: int|
            0 <= k < swaps.len() ==> (apply_corner_ops(s, #[trigger] swaps.take(k)).cp != identity_seq(8)
                && swaps[k] == next_corner_swap(apply_corner_ops(s, swaps.take(k)))),
        twists == corner_twist_ops(apply_corner_ops(s, swaps).co, 8),
        apply_corner_ops(apply_corner_ops(s, swaps), twists) == (StateView { co: zero_seq(8), ..apply_corner_ops(s, swaps) }),
    ensures
        is_corner_solution(s, swaps + twists),
        corner_ops_valid(swaps + twists),
        apply_corner_ops(s, swaps + twists).cp == identity_seq(8),
        apply_corner_ops(s, swaps + twists).co == zero_seq(8),
        apply_corner_ops(s, swaps + twists).ep == s.ep,
        apply_corner_ops(s, swaps + twists).eo == s.eo,
{
    let ops = swaps + twists;
    lemma_apply_corner_ops_append(s, swaps, twists);
    lemma_apply_corner_ops_valid(s, swaps);
    let n = swaps.len() as int;
    assert(ops.take(n) =~= swaps);
    assert(ops.skip(n) =~= twists);
    assert forall|k: int| 0 <= k < n implies ops.take(k) =~= swaps.take(k) by {}
    assert forall|k: int|
        0 <= k < n implies (apply_corner_ops(s, #[trigger] ops.take(k)).cp != identity_seq(8) && ops[k]
            == next_corner_swap(apply_corner_ops(s, ops.take(k)))) by {
        assert(ops.take(k) =~= swaps.take(k));
    }
    assert(is_corner_solution(s, ops));
    assert forall|i: int| 0 <= i < ops.len() implies (#[trigger] ops[i]).valid() by {
        if i < n {
            assert(ops[i] == swaps[i]);
        } else {
            assert(ops[i] == twists[i - n]);
        }
    }
}

/// The swap phase: swaps through the buffer until every corner is in its own slot.
fn corner_swap_phase(state: &State) -> (r: (Vec<CornerOperation>, State))
    requires
        is_permutation(state@.cp),
        all_below(state@.co, 3),
    ensures
        r.1@ == apply_corner_ops(state@, r.0@),
        all_below(r.1@.co, 3),
        r.1@.cp == identity_seq(8),
        corner_ops_valid(r.0@),
        forall|k: int|
            0 <= k < r.0@.len() ==> (apply_corner_ops(state@, #[trigger] r.0@.take(k)).cp != identity_seq(8)
                && r.0@[k] == next_corner_swap(apply_corner_ops(state@, r.0@.take(k)))),
{
    let mut current = *state;
    let mut ops: Vec<CornerOperation> = Vec::new();
    loop
        invariant_except_break
            is_permutation(current@.cp),
            all_below(current@.co, 3),
            current@ == apply_corner_ops(state@, ops@),
            corner_ops_valid(ops@),
            forall|k: int|
                0 <= k < ops@.len() ==> (apply_corner_ops(state@, #[trigger] ops@.take(k)).cp
                    != identity_seq(8) && ops@[k] == next_corner_swap(apply_corner_ops(state@, ops@.take(k)))),
        ensures
            current@ == apply_corner_ops(state@, ops@),
            all_below(current@.co, 3),
            current@.cp == identity_seq(8),
            corner_ops_valid(ops@),
            forall|k: int|
                0 <= k < ops@.len() ==> (apply_corner_ops(state@, #[trigger] ops@.take(k)).cp
                    != identity_seq(8) && ops@[k] == next_corner_swap(apply_corner_ops(state@, ops@.take(k)))),
        decreases corner_measure(current@.cp),
    {
        let b = CORNER_SOLVER_BUFFER;
        let target: usize;
        if current.cp[b] != b as u8 {
            target = current.cp[b] as usize;
        } else {
            match find_next_misplaced_cp(&current.cp) {
                Some(i) => {
                    target = i;
                },
                None => {
                    proof { lemma_first_misplaced(current@.cp, 0); }
                    assert(current@.cp =~= identity_seq(8));
                    break;
                },
            }
        }
        proof {
            lemma_first_misplaced(current@.cp, 0);
            if current@.cp == identity_seq(8) {
                assert(current@.cp[b as int] == b);
                assert(first_misplaced_from(current@.cp, 0) == -1);
            }
            lemma_swap_step(current@);
        }
        let op = CornerOperation::Swap(CornerSwapOperation::new(b, target, current.co[b]));
        assert(op == next_corner_swap(current@));
        let ghost prev_ops = ops@;
        let ghost prev_state = current@;
        ops.push(op);
        current = op.apply(&current);
        proof {
            assert(ops@.drop_last() =~= prev_ops);
            assert(ops@.take(prev_ops.len() as int) =~= prev_ops);
            assert forall|k: int| 0 <= k < ops@.len() implies (apply_corner_ops(state@, #[trigger] ops@.take(k)).cp
                != identity_seq(8) && ops@[k] == next_corner_swap(apply_corner_ops(state@, ops@.take(k)))) by {
                if k < prev_ops.len() {
                    assert(ops@.take(k) =~= prev_ops.take(k));
                } else {
                    assert(k == prev_ops.len());
                    assert(prev_state.cp != identity_seq(8));
                }
            }
        }
    }
    (ops, current)
}

/// The twist phase: untwists every corner with a nonzero orientation, in slot order.
fn corner_twist_phase(start: &State) -> (ops: Vec<CornerOperation>)
    requires
        all_below(start@.co, 3),
    ensures
        ops@ == corner_twist_ops(start@.co, 8),
        corner_ops_valid(ops@),
        apply_corner_ops(start@, ops@) == (StateView { co: zero_seq(8), ..start@ }),
{
    let mut current = *start;
    let mut ops: Vec<CornerOperation> = Vec::new();
    let mut i: usize = 0;
    while i < 8
        invariant
            i <= 8,
            all_below(start@.co, 3),
            current@ == apply_corner_ops(start@, ops@),
            current@.cp == start@.cp,
            current@.ep == start@.ep,
            current@.eo == start@.eo,
            all_below(current@.co, 3),
            forall|k: int| 0 <= k < i ==> current@.co[k] == 0,
            forall|k: int| i <= k < 8 ==> current@.co[k] == start@.co[k],
            ops@ == corner_twist_ops(start@.co, i as int),
            corner_ops_valid(ops@),
        decreases 8 - i,
    {
        if current.co[i] != 0 {
            let op = CornerOperation::Twist(CornerTwistOperation::new(i, current.co[i]));
            let ghost prev_ops = ops@;
            ops.push(op);
            current = op.apply(&current);
            assert(ops@.drop_last() =~= prev_ops);
        }
        i = i + 1;
    }
    assert(current@.co =~= zero_seq(8));
    assert(current@ =~= (StateView { co: zero_seq(8), ..start@ }));
    ops
}

/// The display text of a corner operation:
/// `Swap: <target1> ↔ <target2> (ori: <orientation>)` or `Twist: corner[<target>] (ori: <orientation>)`.
pub open spec fn corner_op_text(op: CornerOperation) -> Seq<char> {
    match op {
        CornerOperation::Swap(o) => "Swap: "@ + decimal(o.target1 as nat) + " ↔ "@ + decimal(o.target2 as nat)
            + " (ori: "@ + decimal(o.orientation as nat) + ")"@,
        CornerOperation::Twist(o) => "Twist: corner["@ + decimal(o.target as nat) + "] (ori: "@ + decimal(
            o.orientation as nat,
        ) + ")"@,
    }
}

/// The numbered listing of operations, one `Step <k>: <text>` line each, lines
/// separated by newlines.
pub open spec fn corner_ops_listing(ops: Seq<CornerOperation>) -> Seq<char> {
    join_with(Seq::new(ops.len(), |i: int| step_line((i + 1) as nat, corner_op_text(ops[i]))), seq!['\n'])
}

impl CornerSwapOperation {
    pub fn to_display_string(&self) -> (s: String)
        ensures
            s@ == corner_op_text(CornerOperation::Swap(*self)),
    {
        let mut s = empty_string();
        push_str(&mut s, "Swap: ");
        push_decimal(&mut s, self.target1);
        push_str(&mut s, " ↔ ");
        push_decimal(&mut s, self.target2);
        push_str(&mut s, " (ori: ");
        push_decimal(&mut s, self.orientation as usize);
        push_str(&mut s, ")");
        s
    }
}

impl CornerTwistOperation {
    pub fn to_display_string(&self) -> (s: String)
        ensures
            s@ == corner_op_text(CornerOperation::Twist(*self)),
    {
        let mut s = empty_string();
        push_str(&mut s, "Twist: corner[");
        push_decimal(&mut s, self.target);
        push_str(&mut s, "] (ori: ");
        push_decimal(&mut s, self.orientation as usize);
        push_str(&mut s, ")");
        s
    }
}

impl CornerOperation {
    pub fn to_display_string(&self) -> (s: String)
        ensures
            s@ == corner_op_text(*self),
    {
        match self {
            CornerOperation::Swap(op) => op.to_display_string(),
            CornerOperation::Twist(op) => op.to_display_string(),
        }
    }
}

/// Computes the corner operations that bring the corners home: swaps through
/// the buffer slot until every corner sits in its own slot, then twists.
pub struct CornerInspection;

impl CornerInspection {
    /// The corner solution of `state` (see [`is_corner_solution`]); performing it
    /// on `state` leaves every corner in its own slot with twist 0 and the edges untouched.
    /// Twists of 3 or more stand for no cube state and are not taken.
    pub fn solve_corner_permutation_with_orientation(state: &State) -> (ops: Vec<CornerOperation>)
        requires
            is_permutation(state@.cp),
            all_below(state@.co, 3),
        ensures
            is_corner_solution(state@, ops@),
            corner_ops_valid(ops@),
            apply_corner_ops(state@, ops@).cp == identity_seq(8),
            apply_corner_ops(state@, ops@).co == zero_seq(8),
            apply_corner_ops(state@, ops@).ep == state@.ep,
            apply_corner_ops(state@, ops@).eo == state@.eo,
    {
        let (mut ops, perm_done) = corner_swap_phase(state);
        let ghost swaps = ops@;
        let twists = corner_twist_phase(&perm_done);
        let mut i: usize = 0;
        while i < twists.len()
            invariant
                i <= twists.len(),
                ops@ == swaps + twists@.take(i as int),
            decreases twists.len() - i,
        {
            ops.push(twists[i]);
            i = i + 1;
            assert(ops@ =~= swaps + twists@.take(i as int));
        }
        proof {
            assert(twists@.take(twists.len() as int) =~= twists@);
            lemma_corner_solution_concat(state@, swaps, twists@);
        }
        ops
    }

    /// One `Step <k>: <operation>` line per operation, joined by newlines.
    pub fn format_operations(operations: &[CornerOperation]) -> (s: String)
        ensures
            s@ == corner_ops_listing(operations@),
    {
        let ghost lines = Seq::new(operations@.len(), |i: int| step_line((i + 1) as nat, corner_op_text(operations@[i])));
        let mut s = empty_string();
        let mut i: usize = 0;
        while i < operations.len()
            invariant
                i <= operations@.len(),
                lines == Seq::new(operations@.len(), |i: int| step_line((i + 1) as nat, corner_op_text(operations@[i]))),
                s@ == join_with(lines.take(i as int), seq!['\n']),
            decreases operations@.len() - i,
        {
            proof {
                lemma_join_with_push(lines.take(i as int), seq!['\n'], lines[i as int]);
                assert(lines.take(i + 1) =~= lines.take(i as int).push(lines[i as int]));
            }
            if i > 0 {
                push_char(&mut s, '\n');
            }
            push_str(&mut s, "Step ");
            push_decimal(&mut s, i + 1);
            push_str(&mut s, ": ");
            let t = operations[i].to_display_string();
            push_str(&mut s, t.as_str());
            proof {
                if i == 0 {
                    assert(s@ =~= lines[0]);
                } else {
                    assert(s@ =~= join_with(lines.take(i as int), seq!['\n']) + seq!['\n'] + lines[i as int]);
                }
            }
            i = i + 1;
        }
        assert(lines.take(operations@.len() as int) =~= lines);
        s
    }
}

} // verus!
