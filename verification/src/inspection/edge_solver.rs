use vstd::prelude::*;
use crate::cube::state::{all_below, identity_seq, is_permutation, zero_seq, State, StateView};
use crate::text::{empty_string, join_with, lemma_join_with_push, push_char, push_decimal, push_str, step_line};

verus! {

/// The edge slot that the neighbourhood searches put at the start of their
/// swap candidates (UF).
pub const EDGE_BUFFER: usize = 6;

/// The edge slot that the edge solution swaps through (DB).
pub const EDGE_SOLVER_BUFFER: usize = 8;

/// Exchange of the edges in two slots; both new flips are shifted by
/// `orientation`, the flip that the first slot held before the exchange.
#[derive(Debug, Clone, Copy, PartialEq, Eq, Structural)]
pub struct EdgeSwapOperation {
    pub target1: usize,
    pub target2: usize,
    pub orientation: u8,
}

/// Flipping of the edge in one slot.
#[derive(Debug, Clone, Copy, PartialEq, Eq, Structural)]
pub struct EdgeFlipOperation {
    pub target: usize,
}

/// An edge operation: a swap or a flip.
#[derive(Debug, Clone, Copy, PartialEq, Eq, Structural)]
pub enum EdgeOperation {
    Swap(EdgeSwapOperation),
    Flip(EdgeFlipOperation),
}

/// The effect of a swap: the two edges change places; the first slot's new flip is
/// `(eo[target2] + orientation) % 2`, the second's `(eo[target1] + orientation) % 2`.
pub open spec fn edge_swap_view(s: StateView, op: EdgeSwapOperation) -> StateView {
    let t1 = op.target1 as int;
    let t2 = op.target2 as int;
    let a = ((s.eo[t2] + op.orientation) % 2) as u8;
    let b = ((s.eo[t1] + op.orientation) % 2) as u8;
    StateView {
        ep: s.ep.update(t1, s.ep[t2]).update(t2, s.ep[t1]),
        eo: s.eo.update(t1, a).update(t2, b),
        ..s
    }
}

/// The effect of a flip: `eo[target]` becomes `(eo[target] + 1) % 2`.
pub open spec fn edge_flip_view(s: StateView, op: EdgeFlipOperation) -> StateView {
    let t = op.target as int;
    StateView { eo: s.eo.update(t, ((s.eo[t] + 1) % 2) as u8), ..s }
}

pub open spec fn edge_op_view(s: StateView, op: EdgeOperation) -> StateView {
    match op {
        EdgeOperation::Swap(o) => edge_swap_view(s, o),
        EdgeOperation::Flip(o) => edge_flip_view(s, o),
    }
}

/// The state after the operations of `ops`, in order.
pub open spec fn apply_edge_ops(s: StateView, ops: Seq<EdgeOperation>) -> StateView
    decreases ops.len(),
{
    if ops.len() == 0 {
        s
    } else {
        edge_op_view(apply_edge_ops(s, ops.drop_last()), ops.last())
    }
}

impl EdgeSwapOperation {
    /// Slots in range and a flip value below 2.
    pub open spec fn valid(self) -> bool {
        self.target1 < 12 && self.target2 < 12 && self.orientation < 2
    }
}

impl EdgeFlipOperation {
    pub open spec fn valid(self) -> bool {
        self.target < 12
    }
}

impl EdgeOperation {
    pub open spec fn valid(self) -> bool {
        match self {
            EdgeOperation::Swap(o) => o.valid(),
            EdgeOperation::Flip(o) => o.valid(),
        }
    }

    /// The operation's own applicability condition on a state.
    pub open spec fn applicable(self, s: StateView) -> bool {
        match self {
            EdgeOperation::Swap(o) => o.target1 < 12 && o.target2 < 12 && s.eo[o.target2 as int] + o.orientation
                <= 255 && s.eo[o.target1 as int] + o.orientation <= 255,
            EdgeOperation::Flip(o) => o.target < 12 && s.eo[o.target as int] + 1 <= 255,
        }
    }
}

/// Every operation of the list is valid.
pub open spec fn edge_ops_valid(ops: Seq<EdgeOperation>) -> bool {
    forall|i: int| 0 <= i < ops.len() ==> (#[trigger] ops[i]).valid()
}

/// Valid operations keep edge flips in range and leave the corners alone.
pub proof fn lemma_edge_op_keeps_orientations(s: StateView, op: EdgeOperation)
    requires
        all_below(s.eo, 2),
        s.eo.len() == 12,
        s.ep.len() == 12,
        op.valid(),
    ensures
        all_below(edge_op_view(s, op).eo, 2),
        s.orientations_valid() ==> edge_op_view(s, op).orientations_valid(),
        edge_op_view(s, op).eo.len() == 12,
        edge_op_view(s, op).ep.len() == 12,
        edge_op_view(s, op).cp == s.cp,
        edge_op_view(s, op).co == s.co,
        op.applicable(s),
{
}

pub proof fn lemma_apply_edge_ops_valid(s: StateView, ops: Seq<EdgeOperation>)
    requires
        all_below(s.eo, 2),
        s.eo.len() == 12,
        s.ep.len() == 12,
        edge_ops_valid(ops),
    ensures
        all_below(apply_edge_ops(s, ops).eo, 2),
        s.orientations_valid() ==> apply_edge_ops(s, ops).orientations_valid(),
        apply_edge_ops(s, ops).eo.len() == 12,
        apply_edge_ops(s, ops).ep.len() == 12,
        apply_edge_ops(s, ops).cp == s.cp,
        apply_edge_ops(s, ops).co == s.co,
    decreases ops.len(),
{
    if ops.len() > 0 {
        lemma_apply_edge_ops_valid(s, ops.drop_last());
        lemma_edge_op_keeps_orientations(apply_edge_ops(s, ops.drop_last()), ops.last());
    }
}

/// Performing `a` and then `b` is performing `a + b`.
pub proof fn lemma_apply_edge_ops_append(s: StateView, a: Seq<EdgeOperation>, b: Seq<EdgeOperation>)
    ensures
        apply_edge_ops(s, a + b) == apply_edge_ops(apply_edge_ops(s, a), b),
    decreases b.len(),
{
    if b.len() == 0 {
        assert(a + b =~= a);
    } else {
        assert((a + b).drop_last() =~= a + b.drop_last());
        lemma_apply_edge_ops_append(s, a, b.drop_last());
    }
}

impl EdgeSwapOperation {
    pub fn new(target1: usize, target2: usize, orientation: u8) -> (r: Self)
        ensures
            r == (EdgeSwapOperation { target1, target2, orientation }),
    {
        Self { target1, target2, orientation }
    }

    /// See [`edge_swap_view`].
    pub fn apply(&self, state: &State) -> (r: State)
        requires
            self.target1 < 12,
            self.target2 < 12,
            state.eo[self.target2 as int] + self.orientation <= 255,
            state.eo[self.target1 as int] + self.orientation <= 255,
        ensures
            r@ == edge_swap_view(state@, *self),
    {
        let mut new_ep = state.ep;
        let mut new_eo = state.eo;
        let t1 = self.target1;
        let t2 = self.target2;
        let e1 = new_ep[t1];
        let e2 = new_ep[t2];
        new_ep[t1] = e2;
        new_ep[t2] = e1;
        let old_eo_target1 = state.eo[t1];
        let old_eo_target2 = state.eo[t2];
        new_eo[t1] = (old_eo_target2 + self.orientation) % 2;
        new_eo[t2] = (old_eo_target1 + self.orientation) % 2;
        let r = State::new(state.cp, state.co, new_ep, new_eo);
        assert(r@ =~= edge_swap_view(state@, *self));
        r
    }
}

impl EdgeFlipOperation {
    pub fn new(target: usize) -> (r: Self)
        ensures
            r == (EdgeFlipOperation { target }),
    {
        Self { target }
    }

    /// See [`edge_flip_view`].
    pub fn apply(&self, state: &State) -> (r: State)
        requires
            self.target < 12,
            state.eo[self.target as int] + 1 <= 255,
        ensures
            r@ == edge_flip_view(state@, *self),
    {
        let mut new_eo = state.eo;
        let t = self.target;
        new_eo[t] = (new_eo[t] + 1) % 2;
        let r = State::new(state.cp, state.co, state.ep, new_eo);
        assert(r@ =~= edge_flip_view(state@, *self));
        r
    }
}

impl EdgeOperation {
    pub fn apply(&self, state: &State) -> (r: State)
        requires
            self.applicable(state@),
        ensures
            r@ == edge_op_view(state@, *self),
    {
        match self {
            EdgeOperation::Swap(op) => op.apply(state),
            EdgeOperation::Flip(op) => op.apply(state),
        }
    }
}

/// Applies a list of edge operations in order.
pub fn apply_edge_operations(state: &State, ops: &Vec<EdgeOperation>) -> (r: State)
    requires
        state@.orientations_valid(),
        edge_ops_valid(ops@),
    ensures
        r@ == apply_edge_ops(state@, ops@),
        r@.orientations_valid(),
{
    let mut r = *state;
    let mut i: usize = 0;
    while i < ops.len()
        invariant
            i <= ops.len(),
            state@.orientations_valid(),
            edge_ops_valid(ops@),
            r@ == apply_edge_ops(state@, ops@.take(i as int)),
            r@.orientations_valid(),
        decreases ops.len() - i,
    {
        assert(ops@.take(i + 1).drop_last() =~= ops@.take(i as int));
        assert(ops@[i as int].valid());
        proof { lemma_edge_op_keeps_orientations(r@, ops@[i as int]); }
        r = ops[i].apply(&r);
        i = i + 1;
    }
    assert(ops@.take(ops.len() as int) =~= ops@);
    r
}

/// The first slot from `i` on whose edge is not its own, or -1.
pub open spec fn first_misplaced_edge_from(ep: Seq<u8>, i: int) -> int
    decreases ep.len() - i,
{
    if i < 0 || i >= ep.len() {
        -1
    } else if ep[i] != i {
        i
    } else {
        first_misplaced_edge_from(ep, i + 1)
    }
}

proof fn lemma_first_misplaced_edge(ep: Seq<u8>, i: int)
    requires
        0 <= i <= ep.len(),
    ensures
        first_misplaced_edge_from(ep, i) == -1 ==> forall|k: int| i <= k < ep.len() ==> ep[k] == k,
        first_misplaced_edge_from(ep, i) != -1 ==> i <= first_misplaced_edge_from(ep, i) < ep.len()
            && ep[first_misplaced_edge_from(ep, i)] != first_misplaced_edge_from(ep, i) && forall|k: int|
            i <= k < first_misplaced_edge_from(ep, i) ==> ep[k] == k,
    decreases ep.len() - i,
{
    if i < ep.len() {
        lemma_first_misplaced_edge(ep, i + 1);
    }
}

/// The swap that the edge solution performs next in state `s`: exchange the
/// buffer with the slot where the buffer's edge belongs, or, when the buffer
/// holds its own edge, with the first misplaced slot (starting a new cycle).
pub open spec fn next_edge_swap(s: StateView) -> EdgeOperation {
    let b = EDGE_SOLVER_BUFFER as int;
    let target = if s.ep[b] != b { s.ep[b] as int } else { first_misplaced_edge_from(s.ep, 0) };
    EdgeOperation::Swap(EdgeSwapOperation { target1: EDGE_SOLVER_BUFFER, target2: target as usize, orientation: s.eo[b] })
}

/// The flips of the flipped edges among the first `n` slots, in slot order.
pub open spec fn edge_flip_ops(eo: Seq<u8>, n: int) -> Seq<EdgeOperation>
    decreases n,
{
    if n <= 0 {
        Seq::empty()
    } else {
        let prev = edge_flip_ops(eo, n - 1);
        if eo[n - 1] != 0 {
            prev.push(EdgeOperation::Flip(EdgeFlipOperation { target: (n - 1) as usize }))
        } else {
            prev
        }
    }
}

/// The number of misplaced edges outside the buffer slot.
pub open spec fn edge_misplaced_count(ep: Seq<u8>) -> int {
    (if ep[0] != 0 { 1int } else { 0 }) + (if ep[1] != 1 { 1int } else { 0 }) + (if ep[2] != 2 { 1int } else { 0 })
        + (if ep[3] != 3 { 1int } else { 0 }) + (if ep[4] != 4 { 1int } else { 0 }) + (if ep[5] != 5 { 1int } else { 0 })
        + (if ep[6] != 6 { 1int } else { 0 }) + (if ep[7] != 7 { 1int } else { 0 }) + (if ep[9] != 9 { 1int } else { 0 })
        + (if ep[10] != 10 { 1int } else { 0 }) + (if ep[11] != 11 { 1int } else { 0 })
}

/// The measure that every edge swap of the solution decreases.
pub open spec fn edge_measure(ep: Seq<u8>) -> int {
    2 * edge_misplaced_count(ep) + if ep[EDGE_SOLVER_BUFFER as int] == EDGE_SOLVER_BUFFER { 1int } else { 0 }
}

/// What the edge solution is: swaps through the buffer, each the next swap of
/// the state reached so far, until every edge is in its own slot, then the
/// flips of the remaining flipped edges in slot order.
pub open spec fn is_edge_solution(s: StateView, ops: Seq<EdgeOperation>) -> bool {
    exists|n: int|
        #![trigger ops.take(n)]
        0 <= n <= ops.len() && (forall|k: int|
            0 <= k < n ==> (apply_edge_ops(s, #[trigger] ops.take(k)).ep != identity_seq(12) && ops[k]
                == next_edge_swap(apply_edge_ops(s, ops.take(k))))) && apply_edge_ops(s, ops.take(n)).ep
            == identity_seq(12) && ops.skip(n) == edge_flip_ops(apply_edge_ops(s, ops.take(n)).eo, 12)
}

/// The swap phase of a edge solution of `s` that ends after `n` swaps.
pub open spec fn edge_solution_with_swaps(s: StateView, ops: Seq<EdgeOperation>, n: int) -> bool {
    0 <= n <= ops.len() && (forall|k: int|
        0 <= k < n ==> (apply_edge_ops(s, #[trigger] ops.take(k)).ep != identity_seq(12) && ops[k]
            == next_edge_swap(apply_edge_ops(s, ops.take(k))))) && apply_edge_ops(s, ops.take(n)).ep
        == identity_seq(12) && ops.skip(n) == edge_flip_ops(apply_edge_ops(s, ops.take(n)).eo, 12)
}

proof fn lemma_edge_solution_prefixes(s: StateView, a: Seq<EdgeOperation>, b: Seq<EdgeOperation>, na: int, nb: int, k: int)
    requires
        edge_solution_with_swaps(s, a, na),
        edge_solution_with_swaps(s, b, nb),
        0 <= k <= na,
        k <= nb,
    ensures
        a.take(k) == b.take(k),
    decreases k,
{
    if k > 0 {
        lemma_edge_solution_prefixes(s, a, b, na, nb, k - 1);
        assert(a[k - 1] == next_edge_swap(apply_edge_ops(s, a.take(k - 1))));
        assert(b[k - 1] == next_edge_swap(apply_edge_ops(s, b.take(k - 1))));
        assert(a.take(k) =~= a.take(k - 1).push(a[k - 1]));
        assert(b.take(k) =~= b.take(k - 1).push(b[k - 1]));
    }
}

/// A state has exactly one edge solution.
pub proof fn lemma_edge_solution_unique(s: StateView, a: Seq<EdgeOperation>, b: Seq<EdgeOperation>)
    requires
        is_edge_solution(s, a),
        is_edge_solution(s, b),
    ensures
        a == b,
{
    let na = choose|n: int| #![trigger a.take(n)] edge_solution_with_swaps(s, a, n);
    let nb = choose|n: int| #![trigger b.take(n)] edge_solution_with_swaps(s, b, n);
    assert(edge_solution_with_swaps(s, a, na));
    assert(edge_solution_with_swaps(s, b, nb));
    if na < nb {
        lemma_edge_solution_prefixes(s, a, b, na, nb, na);
        assert(apply_edge_ops(s, b.take(na)).ep != identity_seq(12));
    } else if nb < na {
        lemma_edge_solution_prefixes(s, a, b, na, nb, nb);
        assert(apply_edge_ops(s, a.take(nb)).ep != identity_seq(12));
    } else {
        lemma_edge_solution_prefixes(s, a, b, na, nb, na);
        assert(a =~= a.take(na) + a.skip(na));
        assert(b =~= b.take(nb) + b.skip(nb));
    }
}

/// A swap that records the flip its first slot holds exchanges the two edges
/// and carries both flips onto the first slot: the second slot ends unflipped,
/// the first with the sum of the two flips; the other slots are untouched.
pub proof fn lemma_edge_swap_carries_flip(s: StateView, t1: int, t2: int)
    requires
        s.ep.len() == 12,
        s.eo.len() == 12,
        all_below(s.eo, 2),
        0 <= t1 < 12,
        0 <= t2 < 12,
        t1 != t2,
    ensures
        ({
            let r = edge_swap_view(
                s,
                EdgeSwapOperation { target1: t1 as usize, target2: t2 as usize, orientation: s.eo[t1] },
            );
            &&& r.ep[t1] == s.ep[t2]
            &&& r.ep[t2] == s.ep[t1]
            &&& r.eo[t2] == 0
            &&& r.eo[t1] == (s.eo[t1] + s.eo[t2]) % 2
            &&& forall|i: int| 0 <= i < 12 && i != t1 && i != t2 ==> r.ep[i] == s.ep[i] && r.eo[i] == s.eo[i]
            &&& r.cp == s.cp && r.co == s.co
        }),
{
}

/// Flipping a flipped edge leaves it unflipped, and two flips of a slot undo each other.
pub proof fn lemma_edge_flip_twice(s: StateView, t: int)
    requires
        s.eo.len() == 12,
        all_below(s.eo, 2),
        0 <= t < 12,
    ensures
        s.eo[t] == 1 ==> edge_flip_view(s, EdgeFlipOperation { target: t as usize }).eo == s.eo.update(t, 0),
        edge_flip_view(edge_flip_view(s, EdgeFlipOperation { target: t as usize }), EdgeFlipOperation { target: t as usize }) == s,
{
    let s1 = edge_flip_view(s, EdgeFlipOperation { target: t as usize });
    assert(edge_flip_view(s1, EdgeFlipOperation { target: t as usize }).eo =~= s.eo);
    assert(s.eo[t] == 1 ==> s1.eo =~= s.eo.update(t, 0));
}

/// The flips that end an edge solution are flips only, and there are none
/// when no slot is flipped.
pub proof fn lemma_edge_flip_ops_shape(eo: Seq<u8>, n: int)
    ensures
        forall|i: int| 0 <= i < edge_flip_ops(eo, n).len() ==> #[trigger] edge_flip_ops(eo, n)[i] is Flip,
        (forall|i: int| 0 <= i < n ==> eo[i] == 0) ==> edge_flip_ops(eo, n).len() == 0,
    decreases n,
{
    if n > 0 {
        lemma_edge_flip_ops_shape(eo, n - 1);
    }
}

/// Every swap of an edge solution goes through the solver's buffer and records
/// the flip that the buffer slot holds just before it.
pub proof fn lemma_edge_solution_swaps_record_buffer(s: StateView, ops: Seq<EdgeOperation>)
    requires
        is_edge_solution(s, ops),
    ensures
        forall|i: int|
            0 <= i < ops.len() ==> (#[trigger] ops[i] matches EdgeOperation::Swap(o) ==> o.target1
                == EDGE_SOLVER_BUFFER && o.orientation == apply_edge_ops(s, ops.take(i)).eo[EDGE_SOLVER_BUFFER as int]),
{
    let n = choose|n: int| #![trigger ops.take(n)] edge_solution_with_swaps(s, ops, n);
    assert(edge_solution_with_swaps(s, ops, n));
    let st = apply_edge_ops(s, ops.take(n));
    assert forall|i: int| 0 <= i < ops.len() implies (#[trigger] ops[i] matches EdgeOperation::Swap(o) ==> o.target1
        == EDGE_SOLVER_BUFFER && o.orientation == apply_edge_ops(s, ops.take(i)).eo[EDGE_SOLVER_BUFFER as int]) by {
        if i < n {
            assert(ops[i] == next_edge_swap(apply_edge_ops(s, ops.take(i))));
        } else {
            lemma_edge_flip_ops_shape(st.eo, 12);
            assert(ops[i] == ops.skip(n)[i - n]);
            assert(ops.skip(n) == edge_flip_ops(st.eo, 12));
            assert(edge_flip_ops(st.eo, 12)[i - n] is Flip);
        }
    }
}

/// A cube whose only edge defect is two edges exchanged through the buffer,
/// with flips that cancel, is solved by that one swap and no flip.
pub proof fn lemma_edge_buffer_two_cycle(s: StateView, t: int, ops: Seq<EdgeOperation>)
    requires
        is_edge_solution(s, ops),
        0 <= t < 12,
        t != 8,
        s.ep == identity_seq(12).update(8, t as u8).update(t, 8u8),
        s.eo.len() == 12,
        all_below(s.eo, 2),
        forall|i: int| 0 <= i < 12 && i != 8 && i != t ==> s.eo[i] == 0,
        (s.eo[8] + s.eo[t]) % 2 == 0,
    ensures
        ops == seq![EdgeOperation::Swap(EdgeSwapOperation { target1: 8, target2: t as usize, orientation: s.eo[8] })],
{
    let b = seq![EdgeOperation::Swap(EdgeSwapOperation { target1: 8, target2: t as usize, orientation: s.eo[8] })];
    assert(b.take(0) =~= Seq::<EdgeOperation>::empty());
    assert(b.take(1) =~= b);
    assert(b.skip(1) =~= Seq::<EdgeOperation>::empty());
    assert(b.drop_last() =~= Seq::<EdgeOperation>::empty());
    let r = apply_edge_ops(s, b);
    assert(r == edge_swap_view(s, EdgeSwapOperation { target1: 8, target2: t as usize, orientation: s.eo[8] }));
    assert(s.ep[8] == t);
    assert(s.ep[t] == 8);
    assert(r.ep =~= identity_seq(12));
    assert(s.ep != identity_seq(12)) by {
        assert(s.ep[8] != identity_seq(12)[8]);
    }
    lemma_edge_flip_ops_shape(r.eo, 12);
    assert(edge_flip_ops(r.eo, 12) =~= Seq::<EdgeOperation>::empty());
    assert(b[0] == next_edge_swap(apply_edge_ops(s, b.take(0))));
    assert(edge_solution_with_swaps(s, b, 1));
    assert(is_edge_solution(s, b));
    lemma_edge_solution_unique(s, ops, b);
}

#[verifier::spinoff_prover]
#[verifier::rlimit(60)]
proof fn lemma_edge_swap_step(s: StateView)
    requires
        is_permutation(s.ep),
        s.ep.len() == 12,
        s.eo.len() == 12,
        all_below(s.eo, 2),
        s.ep != identity_seq(12),
    ensures
        ({
            let op = next_edge_swap(s);
            let t = edge_op_view(s, op);
            &&& op.valid()
            &&& op.applicable(s)
            &&& is_permutation(t.ep)
            &&& t.ep.len() == 12
            &&& t.eo.len() == 12
            &&& all_below(t.eo, 2)
            &&& edge_measure(t.ep) < edge_measure(s.ep)
            &&& 0 <= edge_measure(t.ep)
        }),
{
    let b = EDGE_SOLVER_BUFFER as int;
    if s.ep[b] == b {
        lemma_first_misplaced_edge(s.ep, 0);
        let i = first_misplaced_edge_from(s.ep, 0);
        if i == -1 {
            assert(s.ep =~= identity_seq(12));
        }
        assert(i != b);
        assert(s.ep[i] != b);
    } else {
        let t = s.ep[b] as int;
        assert(s.ep[t] != t);
    }
    let op = next_edge_swap(s);
    let t = edge_op_view(s, op);
    assert forall|i: int, j: int| 0 <= i < 12 && 0 <= j < 12 && i != j implies #[trigger] t.ep[i] != #[trigger] t.ep[j] by {
    }
}

/// Searches the first slot whose edge is not its own, passing over the buffer
/// slot (which holds its own edge when a new cycle is started).
fn find_next_misplaced_ep(ep: &[u8; 12]) -> (r: Option<usize>)
    requires
        ep@[EDGE_SOLVER_BUFFER as int] == EDGE_SOLVER_BUFFER,
    ensures
        match r {
            Some(i) => i < 12 && i as int == first_misplaced_edge_from(ep@, 0),
            None => first_misplaced_edge_from(ep@, 0) == -1,
        },
{
    let mut i: usize = 0;
    while i < 12
        invariant
            i <= 12,
            ep@[EDGE_SOLVER_BUFFER as int] == EDGE_SOLVER_BUFFER,
            first_misplaced_edge_from(ep@, 0) == first_misplaced_edge_from(ep@, i as int),
        decreases 12 - i,
    {
        if i != EDGE_SOLVER_BUFFER && ep[i] != i as u8 {
            return Some(i);
        }
        i = i + 1;
    }
    None
}

proof fn lemma_edge_solution_concat(s: StateView, swaps: Seq<EdgeOperation>, flips: Seq<EdgeOperation>)
    requires
        all_below(s.eo, 2),
        s.eo.len() == 12,
        s.ep.len() == 12,
        edge_ops_valid(swaps),
        edge_ops_valid(flips),
        apply_edge_ops(s, swaps).ep == identity_seq(12),
        forall|k: int|
            0 <= k < swaps.len() ==> (apply_edge_ops(s, #[trigger] swaps.take(k)).ep != identity_seq(12)
                && swaps[k] == next_edge_swap(apply_edge_ops(s, swaps.take(k)))),
        flips == edge_flip_ops(apply_edge_ops(s, swaps).eo, 12),
        apply_edge_ops(apply_edge_ops(s, swaps), flips) == (StateView { eo: zero_seq(12), ..apply_edge_ops(s, swaps) }),
    ensures
        is_edge_solution(s, swaps + flips),
        edge_ops_valid(swaps + flips),
        apply_edge_ops(s, swaps + flips).ep == identity_seq(12),
        apply_edge_ops(s, swaps + flips).eo == zero_seq(12),
        apply_edge_ops(s, swaps + flips).cp == s.cp,
        apply_edge_ops(s, swaps + flips).co == s.co,
{
    let ops = swaps + flips;
    lemma_apply_edge_ops_append(s, swaps, flips);
    lemma_apply_edge_ops_valid(s, swaps);
    let n = swaps.len() as int;
    assert(ops.take(n) =~= swaps);
    assert(ops.skip(n) =~= flips);
    assert forall|k: int| 0 <= k < n implies ops.take(k) =~= swaps.take(k) by {}
    assert forall|k: int|
        0 <= k < n implies (apply_edge_ops(s, #[trigger] ops.take(k)).ep != identity_seq(12) && ops[k]
            == next_edge_swap(apply_edge_ops(s, ops.take(k)))) by {
        assert(ops.take(k) =~= swaps.take(k));
    }
    assert(is_edge_solution(s, ops));
    assert forall|i: int| 0 <= i < ops.len() implies (#[trigger] ops[i]).valid() by {
        if i < n {
            assert(ops[i] == swaps[i]);
        } else {
            assert(ops[i] == flips[i - n]);
        }
    }
}

/// The swap phase: swaps through the buffer until every edge is in its own slot.
fn edge_swap_phase(state: &State) -> (r: (Vec<EdgeOperation>, State))
    requires
        is_permutation(state@.ep),
        all_below(state@.eo, 2),
    ensures
        r.1@ == apply_edge_ops(state@, r.0@),
        all_below(r.1@.eo, 2),
        r.1@.ep == identity_seq(12),
        edge_ops_valid(r.0@),
        forall|k: int|
            0 <= k < r.0@.len() ==> (apply_edge_ops(state@, #[trigger] r.0@.take(k)).ep != identity_seq(12)
                && r.0@[k] == next_edge_swap(apply_edge_ops(state@, r.0@.take(k)))),
{
    let mut current = *state;
    let mut ops: Vec<EdgeOperation> = Vec::new();
    loop
        invariant_except_break
            is_permutation(current@.ep),
            all_below(current@.eo, 2),
            current@ == apply_edge_ops(state@, ops@),
            edge_ops_valid(ops@),
            forall|k: int|
                0 <= k < ops@.len() ==> (apply_edge_ops(state@, #[trigger] ops@.take(k)).ep
                    != identity_seq(12) && ops@[k] == next_edge_swap(apply_edge_ops(state@, ops@.take(k)))),
        ensures
            current@ == apply_edge_ops(state@, ops@),
            all_below(current@.eo, 2),
            current@.ep == identity_seq(12),
            edge_ops_valid(ops@),
            forall|k: int|
                0 <= k < ops@.len() ==> (apply_edge_ops(state@, #[trigger] ops@.take(k)).ep
                    != identity_seq(12) && ops@[k] == next_edge_swap(apply_edge_ops(state@, ops@.take(k)))),
        decreases edge_measure(current@.ep),
    {
        let b = EDGE_SOLVER_BUFFER;
        let target: usize;
        if current.ep[b] != b as u8 {
            target = current.ep[b] as usize;
        } else {
            match find_next_misplaced_ep(&current.ep) {
                Some(i) => {
                    target = i;
                },
                None => {
                    proof { lemma_first_misplaced_edge(current@.ep, 0); }
                    assert(current@.ep =~= identity_seq(12));
                    break;
                },
            }
        }
        proof {
            lemma_first_misplaced_edge(current@.ep, 0);
            if current@.ep == identity_seq(12) {
                assert(current@.ep[b as int] == b);
                assert(first_misplaced_edge_from(current@.ep, 0) == -1);
            }
            lemma_edge_swap_step(current@);
        }
        let op = EdgeOperation::Swap(EdgeSwapOperation::new(b, target, current.eo[b]));
        assert(op == next_edge_swap(current@));
        let ghost prev_ops = ops@;
        let ghost prev_state = current@;
        ops.push(op);
        current = op.apply(&current);
        proof {
            assert(ops@.drop_last() =~= prev_ops);
            assert(ops@.take(prev_ops.len() as int) =~= prev_ops);
            assert forall|k: int| 0 <= k < ops@.len() implies (apply_edge_ops(state@, #[trigger] ops@.take(k)).ep
                != identity_seq(12) && ops@[k] == next_edge_swap(apply_edge_ops(state@, ops@.take(k)))) by {
                if k < prev_ops.len() {
                    assert(ops@.take(k) =~= prev_ops.take(k));
                } else {
                    assert(k == prev_ops.len());
                    assert(prev_state.ep != identity_seq(12));
                }
            }
        }
    }
    (ops, current)
}

/// The flip phase: flips every flipped edge, in slot order.
fn edge_flip_phase(start: &State) -> (ops: Vec<EdgeOperation>)
    requires
        all_below(start@.eo, 2),
    ensures
        ops@ == edge_flip_ops(start@.eo, 12),
        edge_ops_valid(ops@),
        apply_edge_ops(start@, ops@) == (StateView { eo: zero_seq(12), ..start@ }),
{
    let mut current = *start;
    let mut ops: Vec<EdgeOperation> = Vec::new();
    let mut i: usize = 0;
    while i < 12
        invariant
            i <= 12,
            all_below(start@.eo, 2),
            current@ == apply_edge_ops(start@, ops@),
            current@.cp == start@.cp,
            current@.co == start@.co,
            current@.ep == start@.ep,
            all_below(current@.eo, 2),
            forall|k: int| 0 <= k < i ==> current@.eo[k] == 0,
            forall|k: int| i <= k < 12 ==> current@.eo[k] == start@.eo[k],
            ops@ == edge_flip_ops(start@.eo, i as int),
            edge_ops_valid(ops@),
        decreases 12 - i,
    {
        if current.eo[i] != 0 {
            let op = EdgeOperation::Flip(EdgeFlipOperation::new(i));
            let ghost prev_ops = ops@;
            ops.push(op);
            current = op.apply(&current);
            assert(ops@.drop_last() =~= prev_ops);
        }
        i = i + 1;
    }
    assert(current@.eo =~= zero_seq(12));
    assert(current@ =~= (StateView { eo: zero_seq(12), ..start@ }));
    ops
}

/// The two face letters of edge slot `i` (BL, BR, FR, FL, UB, UR, UF, UL, DB, DR, DF, DL).
pub open spec fn edge_letters(i: int) -> (char, char) {
    if i == 0 { ('B', 'L') }
    else if i == 1 { ('B', 'R') }
    else if i == 2 { ('F', 'R') }
    else if i == 3 { ('F', 'L') }
    else if i == 4 { ('U', 'B') }
    else if i == 5 { ('U', 'R') }
    else if i == 6 { ('U', 'F') }
    else if i == 7 { ('U', 'L') }
    else if i == 8 { ('D', 'B') }
    else if i == 9 { ('D', 'R') }
    else if i == 10 { ('D', 'F') }
    else { ('D', 'L') }
}

/// The sticker name of edge slot `i` read with flip `o`: the letters in slot
/// order for `o == 0`, reversed otherwise.
pub open spec fn edge_sticker(i: int, o: int) -> Seq<char> {
    let (a, b) = edge_letters(i);
    if o == 0 { seq![a, b] } else { seq![b, a] }
}

/// The letters of edge slot `i`.
pub fn edge_letters_of(i: usize) -> (r: (char, char))
    requires
        i < 12,
    ensures
        r == edge_letters(i as int),
{
    if i == 0 { ('B', 'L') }
    else if i == 1 { ('B', 'R') }
    else if i == 2 { ('F', 'R') }
    else if i == 3 { ('F', 'L') }
    else if i == 4 { ('U', 'B') }
    else if i == 5 { ('U', 'R') }
    else if i == 6 { ('U', 'F') }
    else if i == 7 { ('U', 'L') }
    else if i == 8 { ('D', 'B') }
    else if i == 9 { ('D', 'R') }
    else if i == 10 { ('D', 'F') }
    else { ('D', 'L') }
}

/// Appends the sticker name of edge slot `i` with flip `o`.
pub fn push_edge_sticker(s: &mut String, i: usize, o: u8)
    requires
        i < 12,
    ensures
        final(s)@ == old(s)@ + edge_sticker(i as int, o as int),
{
    let (a, b) = edge_letters_of(i);
    if o == 0 {
        push_char(s, a);
        push_char(s, b);
    } else {
        push_char(s, b);
        push_char(s, a);
    }
    assert(final(s)@ =~= old(s)@ + edge_sticker(i as int, o as int));
}

/// The display text of an edge operation: `Swap: <sticker> ↔ <sticker>` (the
/// second read with the swap's flip) or `Flip: <sticker> (flipped)`.
pub open spec fn edge_op_text(op: EdgeOperation) -> Seq<char> {
    match op {
        EdgeOperation::Swap(o) => "Swap: "@ + edge_sticker(o.target1 as int, 0) + " ↔ "@ + edge_sticker(
            o.target2 as int,
            o.orientation as int,
        ),
        EdgeOperation::Flip(o) => "Flip: "@ + edge_sticker(o.target as int, 0) + " (flipped)"@,
    }
}

/// Slot indices in range for the sticker table, and a flip value below 2.
pub open spec fn edge_op_displayable(op: EdgeOperation) -> bool {
    match op {
        EdgeOperation::Swap(o) => o.target1 < 12 && o.target2 < 12 && o.orientation < 2,
        EdgeOperation::Flip(o) => o.target < 12,
    }
}

/// The numbered listing of operations, one `Step <k>: <text>` line each.
pub open spec fn edge_ops_listing(ops: Seq<EdgeOperation>) -> Seq<char> {
    join_with(Seq::new(ops.len(), |i: int| step_line((i + 1) as nat, edge_op_text(ops[i]))), seq!['\n'])
}

impl EdgeSwapOperation {
    pub fn to_display_string(&self) -> (s: String)
        requires
            edge_op_displayable(EdgeOperation::Swap(*self)),
        ensures
            s@ == edge_op_text(EdgeOperation::Swap(*self)),
    {
        let mut s = empty_string();
        push_str(&mut s, "Swap: ");
        push_edge_sticker(&mut s, self.target1, 0);
        push_str(&mut s, " ↔ ");
        push_edge_sticker(&mut s, self.target2, self.orientation);
        s
    }
}

impl EdgeFlipOperation {
    pub fn to_display_string(&self) -> (s: String)
        requires
            self.target < 12,
        ensures
            s@ == edge_op_text(EdgeOperation::Flip(*self)),
    {
        let mut s = empty_string();
        push_str(&mut s, "Flip: ");
        push_edge_sticker(&mut s, self.target, 0);
        push_str(&mut s, " (flipped)");
        s
    }
}

impl EdgeOperation {
    pub fn to_display_string(&self) -> (s: String)
        requires
            edge_op_displayable(*self),
        ensures
            s@ == edge_op_text(*self),
    {
        match self {
            EdgeOperation::Swap(op) => op.to_display_string(),
            EdgeOperation::Flip(op) => op.to_display_string(),
        }
    }
}

/// Computes the edge operations that bring the edges home: swaps through the
/// buffer slot until every edge sits in its own slot, then flips.
pub struct EdgeInspection;

impl EdgeInspection {
    /// The edge solution of `state` (see [`is_edge_solution`]); performing it on
    /// `state` leaves every edge in its own slot unflipped and the corners untouched.
    /// Flips of 2 or more stand for no cube state and are not taken.
    pub fn solve_edge_permutation_with_orientation(state: &State) -> (ops: Vec<EdgeOperation>)
        requires
            is_permutation(state@.ep),
            all_below(state@.eo, 2),
        ensures
            is_edge_solution(state@, ops@),
            edge_ops_valid(ops@),
            apply_edge_ops(state@, ops@).ep == identity_seq(12),
            apply_edge_ops(state@, ops@).eo == zero_seq(12),
            apply_edge_ops(state@, ops@).cp == state@.cp,
            apply_edge_ops(state@, ops@).co == state@.co,
    {
        let (mut ops, perm_done) = edge_swap_phase(state);
        let ghost swaps = ops@;
        let flips = edge_flip_phase(&perm_done);
        let mut i: usize = 0;
        while i < flips.len()
            invariant
                i <= flips.len(),
                ops@ == swaps + flips@.take(i as int),
            decreases flips.len() - i,
        {
            ops.push(flips[i]);
            i = i + 1;
            assert(ops@ =~= swaps + flips@.take(i as int));
        }
        proof {
            assert(flips@.take(flips.len() as int) =~= flips@);
            lemma_edge_solution_concat(state@, swaps, flips@);
        }
        ops
    }

    /// One `Step <k>: <operation>` line per operation, joined by newlines.
    pub fn format_operations(operations: &[EdgeOperation]) -> (s: String)
        requires
            forall|i: int| 0 <= i < operations@.len() ==> edge_op_displayable(#[trigger] operations@[i]),
        ensures
            s@ == edge_ops_listing(operations@),
    {
        let ghost lines = Seq::new(operations@.len(), |i: int| step_line((i + 1) as nat, edge_op_text(operations@[i])));
        let mut s = empty_string();
        let mut i: usize = 0;
        while i < operations.len()
            invariant
                i <= operations@.len(),
                forall|i: int| 0 <= i < operations@.len() ==> edge_op_displayable(#[trigger] operations@[i]),
                lines == Seq::new(operations@.len(), |i: int| step_line((i + 1) as nat, edge_op_text(operations@[i]))),
                s@ == join_with(lines.take(i as int), seq!['\n']),
            decreases operations@.len() - i,
        {
            proof {
                lemma_join_with_push(lines.take(i as int), seq!['\n'], lines[i as int]);
                assert(lines.take(i + 1) =~= lines.take(i as int).push(lines[i as int]));
            }
            if i > 0 {
                push_char(&mut s, '\n');
            }
            push_str(&mut s, "Step ");
            push_decimal(&mut s, i + 1);
            push_str(&mut s, ": ");
            let t = operations[i].to_display_string();
            push_str(&mut s, t.as_str());
            proof {
                if i == 0 {
                    assert(s@ =~= lines[0]);
                } else {
                    assert(s@ =~= join_with(lines.take(i as int), seq!['\n']) + seq!['\n'] + lines[i as int]);
                }
            }
            i = i + 1;
        }
        assert(lines.take(operations@.len() as int) =~= lines);
        s
    }
}

} // verus!
