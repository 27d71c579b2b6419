//! Guessing which wrong corner operations a solver performed, from the state reached.
use vstd::prelude::*;
use super::modifier::{corner_modified_text, CornerModifier, ModifiedSequence};
use super::nearby_search::{corner_pair_replacements, corner_variants_view, NearbyOperationSearch};
use crate::cube::state::{all_below, is_permutation, State, StateView};
use crate::inspection::corner_solver::{
    corner_op_text, is_corner_solution, CornerInspection, CornerOperation,
};
use crate::text::{bytes_debug, decimal, empty_string, numbered_lines, push_bytes_debug, push_decimal, push_numbered_line, push_str};

verus! {

/// The modified lists of the variants that reach `target`, in order.
pub open spec fn variants_reaching(
    vs: Seq<((Seq<CornerOperation>, Seq<CornerModifier>), StateView)>,
    target: StateView,
) -> Seq<(Seq<CornerOperation>, Seq<CornerModifier>)>
    decreases vs.len(),
{
    if vs.len() == 0 {
        Seq::empty()
    } else {
        let prev = variants_reaching(vs.drop_last(), target);
        if vs.last().1 == target {
            prev.push(vs.last().0)
        } else {
            prev
        }
    }
}

/// The block of one possibility in a detection report.
pub open spec fn possibility_block(k: int, v: (Seq<CornerOperation>, Seq<CornerModifier>)) -> Seq<char> {
    "Possibility "@ + decimal((k + 1) as nat) + ":\n"@ + "Did you apply:\n"@ + corner_modified_text(v) + "\n"@ + "\n"@
}

/// The report on a wrongly solved state: the initial corners, the correct
/// solution, the wrong corners, then the matching variants or a note that none matches.
pub open spec fn detection_text(
    init: StateView,
    solution: Seq<CornerOperation>,
    wrong: StateView,
    found: Seq<(Seq<CornerOperation>, Seq<CornerModifier>)>,
) -> Seq<char> {
    "Initial State:\n"@ + "  cp: "@ + bytes_debug(init.cp) + "\n"@ + "  co: "@ + bytes_debug(init.co) + "\n\n"@
        + "Correct solution:\n"@ + numbered_lines("  "@, solution.map_values(|o: CornerOperation| corner_op_text(o)))
        + "\n"@ + "Wrong solved State:\n"@ + "  cp: "@ + bytes_debug(wrong.cp) + "\n"@ + "  co: "@ + bytes_debug(
        wrong.co,
    ) + "\n\n"@ + if found.len() == 0 {
        "No matching wrong operation found.\n"@ + "The state might not be reachable by changing two operations.\n"@
    } else {
        "Found "@ + decimal(found.len()) + " possible wrong operation(s):\n\n"@ + Seq::new(
            found.len(),
            |k: int| possibility_block(k, found[k]),
        ).flatten_alt()
    }
}

/// Finds which variants of the correct corner solution, with two operations
/// replaced, lead to a given state.
pub struct WrongOperationDetector {
    initial_state: State,
    correct_solution: Vec<CornerOperation>,
    nearby_variants: Vec<(ModifiedSequence, State)>,
}

impl WrongOperationDetector {
    pub closed spec fn spec_initial_state(&self) -> StateView {
        self.initial_state@
    }

    pub closed spec fn spec_solution(&self) -> Seq<CornerOperation> {
        self.correct_solution@
    }

    pub closed spec fn spec_variants(&self) -> Seq<((Seq<CornerOperation>, Seq<CornerModifier>), StateView)> {
        corner_variants_view(self.nearby_variants@)
    }

    /// A detector for `initial_state`: its corner solution and all variants that
    /// replace two of its operations, each by any operation of its kind; since
    /// a step may get its own operation back, these cover the one-step changes too.
    /// Twists of 3 or more stand for no cube state and are not taken.
    pub fn new(initial_state: State) -> (r: Self)
        requires
            is_permutation(initial_state@.cp),
            all_below(initial_state@.co, 3),
        ensures
            r.spec_initial_state() == initial_state@,
            is_corner_solution(initial_state@, r.spec_solution()),
            r.spec_variants() == corner_pair_replacements(r.spec_solution(), initial_state@, true),
    {
        let correct_solution = CornerInspection::solve_corner_permutation_with_orientation(&initial_state);
        let mut copy: Vec<CornerOperation> = Vec::new();
        let mut i: usize = 0;
        while i < correct_solution.len()
            invariant
                i <= correct_solution.len(),
                copy@ == correct_solution@.take(i as int),
            decreases correct_solution.len() - i,
        {
            copy.push(correct_solution[i]);
            i = i + 1;
            assert(copy@ =~= correct_solution@.take(i as int));
        }
        assert(correct_solution@.take(correct_solution.len() as int) =~= correct_solution@);
        let searcher = NearbyOperationSearch::new(copy);
        let nearby_variants = searcher.explore_pair_replacements(&initial_state);
        WrongOperationDetector { initial_state, correct_solution, nearby_variants }
    }

    /// The variants that reach `wrongly_solved_state`, in order.
    pub fn detect_wrong_operation(&self, wrongly_solved_state: &State) -> (r: Vec<&ModifiedSequence>)
        ensures
            r@.map_values(|m: &ModifiedSequence| m@) == variants_reaching(self.spec_variants(), wrongly_solved_state@),
    {
        let ghost vs = self.spec_variants();
        let mut r: Vec<&ModifiedSequence> = Vec::new();
        let mut i: usize = 0;
        while i < self.nearby_variants.len()
            invariant
                i <= self.nearby_variants.len(),
                vs == self.spec_variants(),
                vs.len() == self.nearby_variants.len(),
                r@.map_values(|m: &ModifiedSequence| m@) == variants_reaching(vs.take(i as int), wrongly_solved_state@),
            decreases self.nearby_variants.len() - i,
        {
            assert(vs.take(i + 1).drop_last() =~= vs.take(i as int));
            let (modified, final_state) = &self.nearby_variants[i];
            assert(vs[i as int] == (modified@, final_state@));
            proof {
                crate::cube::state::lemma_state_eq_view(*final_state, *wrongly_solved_state);
            }
            if *final_state == *wrongly_solved_state {
                let ghost before = r@.map_values(|m: &ModifiedSequence| m@);
                r.push(modified);
                assert(r@.map_values(|m: &ModifiedSequence| m@) =~= before.push(modified@));
            }
            i = i + 1;
        }
        assert(vs.take(vs.len() as int) =~= vs);
        r
    }

    /// The report on `wrongly_solved_state` (see [`detection_text`]).
    pub fn format_detection_result(&self, wrongly_solved_state: &State) -> (s: String)
        ensures
            s@ == detection_text(
                self.spec_initial_state(),
                self.spec_solution(),
                wrongly_solved_state@,
                variants_reaching(self.spec_variants(), wrongly_solved_state@),
            ),
    {
        let mut s = empty_string();
        push_str(&mut s, "Initial State:\n");
        push_str(&mut s, "  cp: ");
        push_bytes_debug(&mut s, self.initial_state.cp.as_slice());
        push_str(&mut s, "\n");
        push_str(&mut s, "  co: ");
        push_bytes_debug(&mut s, self.initial_state.co.as_slice());
        push_str(&mut s, "\n\n");
        let ghost part1 = s@;
        push_str(&mut s, "Correct solution:\n");
        let ghost texts = self.correct_solution@.map_values(|o: CornerOperation| corner_op_text(o));
        let mut lines = empty_string();
        let mut i: usize = 0;
        while i < self.correct_solution.len()
            invariant
                i <= self.correct_solution.len(),
                texts == self.correct_solution@.map_values(|o: CornerOperation| corner_op_text(o)),
                lines@ == numbered_lines("  "@, texts.take(i as int)),
            decreases self.correct_solution.len() - i,
        {
            assert(texts.take(i + 1).drop_last() =~= texts.take(i as int));
            let t = self.correct_solution[i].to_display_string();
            push_numbered_line(&mut lines, "  ", i + 1, t.as_str());
            i = i + 1;
        }
        assert(texts.take(texts.len() as int) =~= texts);
        push_str(&mut s, lines.as_str());
        push_str(&mut s, "\n");
        push_str(&mut s, "Wrong solved State:\n");
        push_str(&mut s, "  cp: ");
        push_bytes_debug(&mut s, wrongly_solved_state.cp.as_slice());
        push_str(&mut s, "\n");
        push_str(&mut s, "  co: ");
        push_bytes_debug(&mut s, wrongly_solved_state.co.as_slice());
        push_str(&mut s, "\n\n");
        let ghost head = s@;
        let found = self.detect_wrong_operation(wrongly_solved_state);
        let ghost fv = found@.map_values(|m: &ModifiedSequence| m@);
        if found.len() == 0 {
            push_str(&mut s, "No matching wrong operation found.\n");
            push_str(&mut s, "The state might not be reachable by changing two operations.\n");
        } else {
            push_str(&mut s, "Found ");
            push_decimal(&mut s, found.len());
            push_str(&mut s, " possible wrong operation(s):\n\n");
            let ghost blocks = Seq::new(fv.len(), |k: int| possibility_block(k, fv[k]));
            let mut body = empty_string();
            let mut k: usize = 0;
            while k < found.len()
                invariant
                    k <= found.len(),
                    fv == found@.map_values(|m: &ModifiedSequence| m@),
                    blocks == Seq::new(fv.len(), |k: int| possibility_block(k, fv[k])),
                    body@ == blocks.take(k as int).flatten_alt(),
                decreases found.len() - k,
            {
                assert(blocks.take(k + 1).drop_last() =~= blocks.take(k as int));
                let ghost before = body@;
                push_str(&mut body, "Possibility ");
                push_decimal(&mut body, k + 1);
                push_str(&mut body, ":\n");
                push_str(&mut body, "Did you apply:\n");
                let t = found[k].to_display_string();
                push_str(&mut body, t.as_str());
                push_str(&mut body, "\n");
                push_str(&mut body, "\n");
                assert(body@ =~= before + blocks[k as int]);
                k = k + 1;
            }
            assert(blocks.take(fv.len() as int) =~= blocks);
            push_str(&mut s, body.as_str());
        }
        assert(s@ =~= detection_text(
            self.spec_initial_state(),
            self.spec_solution(),
            wrongly_solved_state@,
            variants_reaching(self.spec_variants(), wrongly_solved_state@),
        ));
        s
    }

    pub fn correct_solution(&self) -> (r: &[CornerOperation])
        ensures
            r@ == self.spec_solution(),
    {
        self.correct_solution.as_slice()
    }

    pub fn initial_state(&self) -> (r: &State)
        ensures
            r@ == self.spec_initial_state(),
    {
        &self.initial_state
    }

    /// The number of variants.
    pub fn variant_count(&self) -> (n: usize)
        ensures
            n == self.spec_variants().len(),
    {
        self.nearby_variants.len()
    }
}

} // verus!
