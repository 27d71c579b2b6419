//! The blindfolded solving workflow: corner and edge analysis, then face turns.
use vstd::prelude::*;
use crate::cube::state::{is_permutation, solved_view, State, StateView};
use crate::inspection::corner_solver::{
    apply_corner_ops, corner_op_text, corner_op_view, corner_ops_valid, is_corner_solution, CornerInspection,
    CornerOperation,
};
use crate::inspection::edge_solver::{
    apply_edge_ops, edge_op_displayable, edge_op_text, edge_op_view, edge_ops_valid, is_edge_solution,
    EdgeInspection, EdgeOperation,
};
use crate::inspection::operations_to_turns::{
    corner_runs_from, edge_runs_from, joined_description, move_sequences_view, tables_from_json, MoveSequence,
    turn_tables_keys_distinct, OperationsToTurns, TurnTablesView,
};
use crate::parser::move_parser::{sequence_text, NotationMove};
use crate::text::{empty_string, numbered_lines, push_numbered_line, push_str};

verus! {

/// A corner or an edge operation.
#[derive(Debug, Clone, Copy, PartialEq, Eq, Structural)]
pub enum Operation {
    Corner(CornerOperation),
    Edge(EdgeOperation),
}

/// The effect of one operation.
pub open spec fn operation_view(s: StateView, op: Operation) -> StateView {
    match op {
        Operation::Corner(o) => corner_op_view(s, o),
        Operation::Edge(o) => edge_op_view(s, o),
    }
}

/// The state after the operations, in order.
pub open spec fn apply_operations(s: StateView, ops: Seq<Operation>) -> StateView
    decreases ops.len(),
{
    if ops.len() == 0 {
        s
    } else {
        operation_view(apply_operations(s, ops.drop_last()), ops.last())
    }
}

/// The display text of an operation.
pub open spec fn operation_text(op: Operation) -> Seq<char> {
    match op {
        Operation::Corner(o) => corner_op_text(o),
        Operation::Edge(o) => edge_op_text(o),
    }
}

/// The operation can be displayed (an edge operation's slots are in range).
pub open spec fn operation_displayable(op: Operation) -> bool {
    match op {
        Operation::Corner(_) => true,
        Operation::Edge(o) => edge_op_displayable(o),
    }
}

/// The edge operations followed by the corner operations.
pub open spec fn edge_then_corner(e: Seq<EdgeOperation>, c: Seq<CornerOperation>) -> Seq<Operation> {
    e.map_values(|o: EdgeOperation| Operation::Edge(o)) + c.map_values(|o: CornerOperation| Operation::Corner(o))
}

impl Operation {
    pub fn to_display_string(&self) -> (s: String)
        requires
            operation_displayable(*self),
        ensures
            s@ == operation_text(*self),
    {
        match self {
            Operation::Corner(o) => o.to_display_string(),
            Operation::Edge(o) => o.to_display_string(),
        }
    }
}

/// The edge and corner operations of a solution, in the order they are performed.
#[derive(Debug, Clone)]
pub struct AllOperations {
    operations: Vec<Operation>,
}

impl View for AllOperations {
    type V = Seq<Operation>;

    closed spec fn view(&self) -> Seq<Operation> {
        self.operations@
    }
}

impl AllOperations {
    pub fn new() -> (r: Self)
        ensures
            r@ == Seq::<Operation>::empty(),
    {
        AllOperations { operations: Vec::new() }
    }

    pub fn push_edge(&mut self, op: EdgeOperation)
        ensures
            final(self)@ == old(self)@.push(Operation::Edge(op)),
    {
        self.operations.push(Operation::Edge(op));
    }

    pub fn push_corner(&mut self, op: CornerOperation)
        ensures
            final(self)@ == old(self)@.push(Operation::Corner(op)),
    {
        self.operations.push(Operation::Corner(op));
    }

    pub fn operations(&self) -> (r: &[Operation])
        ensures
            r@ == self@,
    {
        self.operations.as_slice()
    }

    pub fn len(&self) -> (n: usize)
        ensures
            n == self@.len(),
    {
        self.operations.len()
    }

    pub fn is_empty(&self) -> (b: bool)
        ensures
            b == (self@.len() == 0),
    {
        self.operations.len() == 0
    }

    /// One `Step <k>: <operation>` line per operation, each ending in a newline.
    pub fn to_display_string(&self) -> (s: String)
        requires
            forall|i: int| 0 <= i < self@.len() ==> operation_displayable(#[trigger] self@[i]),
        ensures
            s@ == numbered_lines(""@, self@.map_values(|o: Operation| operation_text(o))),
    {
        let ghost texts = self@.map_values(|o: Operation| operation_text(o));
        let mut s = empty_string();
        let mut i: usize = 0;
        while i < self.operations.len()
            invariant
                i <= self.operations.len(),
                texts == self@.map_values(|o: Operation| operation_text(o)),
                forall|i: int| 0 <= i < self@.len() ==> operation_displayable(#[trigger] self@[i]),
                s@ == numbered_lines(""@, texts.take(i as int)),
            decreases self.operations.len() - i,
        {
            assert(texts.take(i + 1).drop_last() =~= texts.take(i as int));
            assert(operation_displayable(self@[i as int]));
            let t = self.operations[i].to_display_string();
            push_numbered_line(&mut s, "", i + 1, t.as_str());
            i = i + 1;
        }
        assert(texts.take(self@.len() as int) =~= texts);
        s
    }
}

impl Default for AllOperations {
    fn default() -> (r: Self)
        ensures
            r@ == Seq::<Operation>::empty(),
    {
        AllOperations::new()
    }
}

/// A complete solution: the corner and edge operations, all operations (edges
/// first) and the face turns (edge runs first).
#[derive(Debug, Clone)]
pub struct BldSolution {
    pub corner_operations: Vec<CornerOperation>,
    pub edge_operations: Vec<EdgeOperation>,
    pub all_operations: AllOperations,
    pub move_sequence: MoveSequence,
}

/// The runs merged into one: all moves in order, the descriptions joined as by
/// [`MoveSequence::extend`], starting from an empty run.
pub open spec fn combined_run(runs: Seq<(Seq<NotationMove>, Seq<char>)>) -> (Seq<NotationMove>, Seq<char>)
    decreases runs.len(),
{
    if runs.len() == 0 {
        (Seq::empty(), Seq::empty())
    } else {
        let p = combined_run(runs.drop_last());
        (p.0 + runs.last().0, joined_description(p.1, runs.last().1))
    }
}

/// The error of a solution with edge operations `e` and corner operations `c`:
/// the edge conversion's, else the corner conversion's, else none.
pub open spec fn bld_error(tb: TurnTablesView, e: Seq<EdgeOperation>, c: Seq<CornerOperation>) -> Option<Seq<char>> {
    match edge_runs_from(tb, e, 0) {
        Err(x) => Some(x),
        Ok(_) => match corner_runs_from(tb, c, 0) {
            Err(x) => Some(x),
            Ok(_) => None,
        },
    }
}

proof fn lemma_apply_operations_concat(s: StateView, a: Seq<Operation>, b: Seq<Operation>)
    ensures
        apply_operations(s, a + b) == apply_operations(apply_operations(s, a), b),
    decreases b.len(),
{
    if b.len() == 0 {
        assert(a + b =~= a);
    } else {
        lemma_apply_operations_concat(s, a, b.drop_last());
        assert((a + b).drop_last() =~= a + b.drop_last());
    }
}

proof fn lemma_apply_operations_edges(s: StateView, e: Seq<EdgeOperation>)
    ensures
        apply_operations(s, e.map_values(|o: EdgeOperation| Operation::Edge(o))) == apply_edge_ops(s, e),
    decreases e.len(),
{
    if e.len() > 0 {
        lemma_apply_operations_edges(s, e.drop_last());
        assert(e.map_values(|o: EdgeOperation| Operation::Edge(o)).drop_last() =~= e.drop_last().map_values(
            |o: EdgeOperation| Operation::Edge(o),
        ));
    }
}

proof fn lemma_apply_operations_corners(s: StateView, c: Seq<CornerOperation>)
    ensures
        apply_operations(s, c.map_values(|o: CornerOperation| Operation::Corner(o))) == apply_corner_ops(s, c),
    decreases c.len(),
{
    if c.len() > 0 {
        lemma_apply_operations_corners(s, c.drop_last());
        assert(c.map_values(|o: CornerOperation| Operation::Corner(o)).drop_last() =~= c.drop_last().map_values(
            |o: CornerOperation| Operation::Corner(o),
        ));
    }
}

/// Corner operations read and change only the corners.
pub proof fn lemma_corner_ops_frame(s: StateView, t: StateView, c: Seq<CornerOperation>)
    requires
        s.cp == t.cp,
        s.co == t.co,
    ensures
        apply_corner_ops(t, c) == (StateView { ep: t.ep, eo: t.eo, ..apply_corner_ops(s, c) }),
    decreases c.len(),
{
    if c.len() > 0 {
        lemma_corner_ops_frame(s, t, c.drop_last());
    } else {
        assert(apply_corner_ops(t, c) =~= (StateView { ep: t.ep, eo: t.eo, ..apply_corner_ops(s, c) }));
    }
}

/// Performing the edge solution and then the corner solution of a state solves it.
pub proof fn lemma_solution_solves(s: StateView, e: Seq<EdgeOperation>, c: Seq<CornerOperation>)
    requires
        apply_edge_ops(s, e).ep == crate::cube::state::identity_seq(12),
        apply_edge_ops(s, e).eo == crate::cube::state::zero_seq(12),
        apply_edge_ops(s, e).cp == s.cp,
        apply_edge_ops(s, e).co == s.co,
        apply_corner_ops(s, c).cp == crate::cube::state::identity_seq(8),
        apply_corner_ops(s, c).co == crate::cube::state::zero_seq(8),
    ensures
        apply_operations(s, edge_then_corner(e, c)) == solved_view(),
{
    lemma_apply_operations_concat(
        s,
        e.map_values(|o: EdgeOperation| Operation::Edge(o)),
        c.map_values(|o: CornerOperation| Operation::Corner(o)),
    );
    lemma_apply_operations_edges(s, e);
    lemma_apply_operations_corners(apply_edge_ops(s, e), c);
    lemma_corner_ops_frame(s, apply_edge_ops(s, e), c);
    assert(apply_operations(s, edge_then_corner(e, c)) =~= solved_view());
}

/// Solves cubes blindfolded-style: corner and edge operations through the
/// buffers, turned into face turns with algorithm tables.
pub struct BldWorkflow {
    operations_converter: OperationsToTurns,
}

impl View for BldWorkflow {
    type V = TurnTablesView;

    closed spec fn view(&self) -> TurnTablesView {
        self.operations_converter@
    }
}

impl BldWorkflow {
    /// A workflow with the tables read from the five JSON texts (see [`tables_from_json`]).
    pub fn new(
        ufr_expanded_json: &str,
        ufr_parity_json: &str,
        ufr_twist_json: &str,
        uf_expanded_json: &str,
        uf_flip_json: &str,
    ) -> (r: Result<Self, String>)
        ensures
            match r {
                Ok(w) => tables_from_json(
                    ufr_expanded_json@,
                    ufr_parity_json@,
                    ufr_twist_json@,
                    uf_expanded_json@,
                    uf_flip_json@,
                ) == Ok::<TurnTablesView, Seq<char>>(w@),
                Err(e) => tables_from_json(
                    ufr_expanded_json@,
                    ufr_parity_json@,
                    ufr_twist_json@,
                    uf_expanded_json@,
                    uf_flip_json@,
                ) == Err::<TurnTablesView, Seq<char>>(e@),
            },
            r matches Ok(w) ==> turn_tables_keys_distinct(w@),
    {
        match OperationsToTurns::new(ufr_expanded_json, ufr_parity_json, ufr_twist_json, uf_expanded_json, uf_flip_json) {
            Ok(c) => Ok(BldWorkflow { operations_converter: c }),
            Err(e) => Err(e),
        }
    }

    /// A workflow with the given converter.
    pub fn from_converter(converter: OperationsToTurns) -> (r: Self)
        ensures
            r@ == converter@,
    {
        BldWorkflow { operations_converter: converter }
    }

    /// The solution of `state`: its corner solution and edge solution, all
    /// operations with the edges first, and the face turns of the edge runs then
    /// the corner runs merged into one; or the first conversion error.
    /// Performing all operations on `state` solves the cube. Twists of 3 or more
    /// and flips of 2 or more stand for no cube state and are not taken.
    pub fn solve(&self, state: &State) -> (r: Result<BldSolution, String>)
        requires
            is_permutation(state@.cp),
            is_permutation(state@.ep),
            state@.orientations_valid(),
        ensures
            match r {
                Ok(sol) => {
                    &&& is_corner_solution(state@, sol.corner_operations@)
                    &&& is_edge_solution(state@, sol.edge_operations@)
                    &&& corner_ops_valid(sol.corner_operations@)
                    &&& edge_ops_valid(sol.edge_operations@)
                    &&& sol.all_operations@ == edge_then_corner(sol.edge_operations@, sol.corner_operations@)
                    &&& bld_error(self@, sol.edge_operations@, sol.corner_operations@) is None
                    &&& sol.move_sequence@ == combined_run(
                        edge_runs_from(self@, sol.edge_operations@, 0)->Ok_0 + corner_runs_from(
                            self@,
                            sol.corner_operations@,
                            0,
                        )->Ok_0,
                    )
                    &&& apply_operations(state@, sol.all_operations@) == solved_view()
                },
                Err(e) => exists|c: Seq<CornerOperation>, eo: Seq<EdgeOperation>|
                    is_corner_solution(state@, c) && is_edge_solution(state@, eo) && bld_error(self@, eo, c)
                        == Some(e@),
            },
    {
        let corner_operations = CornerInspection::solve_corner_permutation_with_orientation(state);
        let edge_operations = EdgeInspection::solve_edge_permutation_with_orientation(state);
        proof {
            lemma_solution_solves(state@, edge_operations@, corner_operations@);
        }
        let mut all_operations = AllOperations::new();
        let mut i: usize = 0;
        while i < edge_operations.len()
            invariant
                i <= edge_operations.len(),
                all_operations@ == edge_operations@.take(i as int).map_values(|o: EdgeOperation| Operation::Edge(o)),
            decreases edge_operations.len() - i,
        {
            all_operations.push_edge(edge_operations[i]);
            i = i + 1;
            assert(all_operations@ =~= edge_operations@.take(i as int).map_values(
                |o: EdgeOperation| Operation::Edge(o),
            ));
        }
        assert(edge_operations@.take(edge_operations.len() as int) =~= edge_operations@);
        let ghost edge_part = all_operations@;
        let mut j: usize = 0;
        while j < corner_operations.len()
            invariant
                j <= corner_operations.len(),
                all_operations@ == edge_part + corner_operations@.take(j as int).map_values(
                    |o: CornerOperation| Operation::Corner(o),
                ),
            decreases corner_operations.len() - j,
        {
            all_operations.push_corner(corner_operations[j]);
            j = j + 1;
            assert(all_operations@ =~= edge_part + corner_operations@.take(j as int).map_values(
                |o: CornerOperation| Operation::Corner(o),
            ));
        }
        assert(corner_operations@.take(corner_operations.len() as int) =~= corner_operations@);
        assert(all_operations@ =~= edge_then_corner(edge_operations@, corner_operations@));
        proof {
            assert(crate::inspection::operations_to_turns::edge_ops_stickered(edge_operations@)) by {
                assert forall|k: int| 0 <= k < edge_operations@.len() implies match #[trigger] edge_operations@[k] {
                    EdgeOperation::Swap(o) => o.target2 < 12,
                    EdgeOperation::Flip(o) => o.target < 12,
                } by {
                    assert(edge_operations@[k].valid());
                }
            }
            assert(crate::inspection::operations_to_turns::corner_ops_stickered(corner_operations@)) by {
                assert forall|k: int| 0 <= k < corner_operations@.len() implies match #[trigger] corner_operations@[k] {
                    CornerOperation::Swap(o) => o.target2 < 8 && o.orientation < 3,
                    CornerOperation::Twist(o) => o.target < 8 && o.orientation < 3,
                } by {
                    assert(corner_operations@[k].valid());
                }
            }
        }
        let edge_sequences = match self.operations_converter.convert_edge_operations(edge_operations.as_slice()) {
            Ok(c) => c,
            Err(e) => {
                assert(bld_error(self@, edge_operations@, corner_operations@) == Some(e@));
                return Err(e);
            },
        };
        let corner_sequences = match self.operations_converter.convert(corner_operations.as_slice()) {
            Ok(c) => c,
            Err(e) => {
                assert(bld_error(self@, edge_operations@, corner_operations@) == Some(e@));
                return Err(e);
            },
        };
        let ghost runs = edge_sequences@ + corner_sequences@;
        let mut move_sequence = MoveSequence::empty();
        let edge_runs = edge_sequences.into_sequences();
        let corner_runs = corner_sequences.into_sequences();
        let ghost ne = edge_runs@.len();
        let mut k: usize = 0;
        while k < edge_runs.len()
            invariant
                k <= edge_runs.len(),
                ne == edge_runs@.len(),
                runs == move_sequences_view(edge_runs@) + move_sequences_view(corner_runs@),
                move_sequence@ == combined_run(runs.take(k as int)),
            decreases edge_runs.len() - k,
        {
            assert(runs.take(k + 1).drop_last() =~= runs.take(k as int));
            assert(runs[k as int] == edge_runs@[k as int]@);
            move_sequence.extend(edge_runs[k].copy());
            k = k + 1;
        }
        let mut m: usize = 0;
        while m < corner_runs.len()
            invariant
                m <= corner_runs.len(),
                ne == edge_runs@.len(),
                runs == move_sequences_view(edge_runs@) + move_sequences_view(corner_runs@),
                move_sequence@ == combined_run(runs.take(ne + m)),
            decreases corner_runs.len() - m,
        {
            assert(runs.take(ne + m + 1).drop_last() =~= runs.take(ne + m));
            assert(runs[ne + m] == corner_runs@[m as int]@);
            move_sequence.extend(corner_runs[m].copy());
            m = m + 1;
        }
        assert(runs.take(runs.len() as int) =~= runs);
        Ok(BldSolution { corner_operations, edge_operations, all_operations, move_sequence })
    }

    /// The readable text of a solution: headed sections for the corner
    /// operations, the edge operations, all operations and the face turns.
    pub fn format_solution(solution: &BldSolution) -> (s: String)
        requires
            forall|i: int|
                0 <= i < solution.edge_operations@.len() ==> edge_op_displayable(
                    #[trigger] solution.edge_operations@[i],
                ),
            forall|i: int|
                0 <= i < solution.all_operations@.len() ==> operation_displayable(
                    #[trigger] solution.all_operations@[i],
                ),
        ensures
            s@ == solution_text(
                solution.corner_operations@,
                solution.edge_operations@,
                solution.all_operations@,
                solution.move_sequence@.0,
            ),
    {
        let mut s = empty_string();
        push_str(&mut s, "=== BLD Solution ===\n\n");
        push_str(&mut s, "Corner Operations:\n");
        if solution.corner_operations.len() == 0 {
            push_str(&mut s, "  (none)\n");
        } else {
            let t = corner_lines(solution.corner_operations.as_slice());
            push_str(&mut s, t.as_str());
        }
        push_str(&mut s, "\n");
        push_str(&mut s, "Edge Operations:\n");
        if solution.edge_operations.len() == 0 {
            push_str(&mut s, "  (none)\n");
        } else {
            let t = edge_lines(solution.edge_operations.as_slice());
            push_str(&mut s, t.as_str());
        }
        push_str(&mut s, "\n");
        push_str(&mut s, "All Operations (Edge → Corner):\n");
        if solution.all_operations.is_empty() {
            push_str(&mut s, "  (none)\n");
        } else {
            let t = solution.all_operations.to_display_string();
            push_str(&mut s, t.as_str());
        }
        push_str(&mut s, "\n");
        push_str(&mut s, "Move Sequence:\n");
        push_str(&mut s, "  ");
        let t = solution.move_sequence.to_display_string();
        push_str(&mut s, t.as_str());
        push_str(&mut s, "\n");
        s
    }
}

/// A section of a listing: `  (none)` when there are no texts, else the numbered lines.
pub open spec fn section(indent: Seq<char>, texts: Seq<Seq<char>>) -> Seq<char> {
    if texts.len() == 0 {
        "  (none)\n"@
    } else {
        numbered_lines(indent, texts)
    }
}

/// The text of a solution (see [`BldWorkflow::format_solution`]).
pub open spec fn solution_text(
    corners: Seq<CornerOperation>,
    edges: Seq<EdgeOperation>,
    all: Seq<Operation>,
    moves: Seq<NotationMove>,
) -> Seq<char> {
    "=== BLD Solution ===\n\n"@ + "Corner Operations:\n"@ + section(
        "  "@,
        corners.map_values(|o: CornerOperation| corner_op_text(o)),
    ) + "\n"@ + "Edge Operations:\n"@ + section("  "@, edges.map_values(|o: EdgeOperation| edge_op_text(o)))
        + "\n"@ + "All Operations (Edge → Corner):\n"@ + section(
        ""@,
        all.map_values(|o: Operation| operation_text(o)),
    ) + "\n"@ + "Move Sequence:\n"@ + "  "@ + sequence_text(moves) + "\n"@
}

fn corner_lines(ops: &[CornerOperation]) -> (s: String)
    ensures
        s@ == numbered_lines("  "@, ops@.map_values(|o: CornerOperation| corner_op_text(o))),
{
    let ghost texts = ops@.map_values(|o: CornerOperation| corner_op_text(o));
    let mut s = empty_string();
    let mut i: usize = 0;
    while i < ops.len()
        invariant
            i <= ops.len(),
            texts == ops@.map_values(|o: CornerOperation| corner_op_text(o)),
            s@ == numbered_lines("  "@, texts.take(i as int)),
        decreases ops.len() - i,
    {
        assert(texts.take(i + 1).drop_last() =~= texts.take(i as int));
        let t = ops[i].to_display_string();
        push_numbered_line(&mut s, "  ", i + 1, t.as_str());
        i = i + 1;
    }
    assert(texts.take(ops@.len() as int) =~= texts);
    s
}

fn edge_lines(ops: &[EdgeOperation]) -> (s: String)
    requires
        forall|i: int| 0 <= i < ops@.len() ==> edge_op_displayable(#[trigger] ops@[i]),
    ensures
        s@ == numbered_lines("  "@, ops@.map_values(|o: EdgeOperation| edge_op_text(o))),
{
    let ghost texts = ops@.map_values(|o: EdgeOperation| edge_op_text(o));
    let mut s = empty_string();
    let mut i: usize = 0;
    while i < ops.len()
        invariant
            i <= ops.len(),
            texts == ops@.map_values(|o: EdgeOperation| edge_op_text(o)),
            forall|i: int| 0 <= i < ops@.len() ==> edge_op_displayable(#[trigger] ops@[i]),
            s@ == numbered_lines("  "@, texts.take(i as int)),
        decreases ops.len() - i,
    {
        assert(texts.take(i + 1).drop_last() =~= texts.take(i as int));
        assert(edge_op_displayable(ops@[i as int]));
        let t = ops[i].to_display_string();
        push_numbered_line(&mut s, "  ", i + 1, t.as_str());
        i = i + 1;
    }
    assert(texts.take(ops@.len() as int) =~= texts);
    s
}

} // verus!
