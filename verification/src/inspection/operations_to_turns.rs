//! Turning corner and edge operations into face turns, with algorithm tables.
use vstd::prelude::*;
use super::corner_solver::{CornerOperation, CornerSwapOperation, CornerTwistOperation};
use super::edge_solver::{edge_sticker, push_edge_sticker, EdgeFlipOperation, EdgeOperation, EdgeSwapOperation};
use super::json_reading::{
    json_string_map_reading, json_two_level_reading, lemma_nested_table_keys, nested_table, nested_table_of,
    read_json_string_map, read_json_two_levels,
};
use crate::parser::csv_parser::{keys_distinct, nested_keys_distinct};
use crate::display::conversion::corner_base_colors;
use crate::display::colors::CubeColor;
use crate::cube::operations::{apply_notation, apply_steps, is_quarter_face_turn, move_steps, turn_times};
use crate::cube::state::solved_view;
use super::edge_solver::{edge_letters, EDGE_BUFFER, EDGE_SOLVER_BUFFER};
use super::corner_solver::{CORNER_BUFFER, CORNER_SOLVER_BUFFER};
use crate::parser::move_parser::move_parts;
use crate::parser::move_parser::{
    parse_sequence, parse_words, sequence_text, sequence_to_string, words, NotationMove, Sequence,
};
use crate::text::{empty_string, join_with, lemma_join_with_push, push_char, push_str};

verus! {

/// A run of moves with a short description of what it does.
#[derive(Debug, Clone, PartialEq)]
pub struct MoveSequence {
    pub moves: Sequence,
    pub description: String,
}

impl View for MoveSequence {
    type V = (Seq<NotationMove>, Seq<char>);

    open spec fn view(&self) -> (Seq<NotationMove>, Seq<char>) {
        (self.moves@, self.description@)
    }
}

/// The description of `a` followed by that of `b`: joined with ", " when both
/// are non-empty, otherwise the non-empty one.
pub open spec fn joined_description(a: Seq<char>, b: Seq<char>) -> Seq<char> {
    if a.len() == 0 {
        b
    } else if b.len() == 0 {
        a
    } else {
        a + ", "@ + b
    }
}

fn copy_moves(moves: &Sequence) -> (r: Sequence)
    ensures
        r@ == moves@,
{
    let mut r: Vec<NotationMove> = Vec::new();
    let mut i: usize = 0;
    while i < moves.len()
        invariant
            i <= moves.len(),
            r@ == moves@.take(i as int),
        decreases moves.len() - i,
    {
        r.push(moves[i]);
        i = i + 1;
        assert(r@ =~= moves@.take(i as int));
    }
    assert(moves@.take(moves.len() as int) =~= moves@);
    r
}

impl MoveSequence {
    pub fn new(moves: Sequence, description: String) -> (r: Self)
        ensures
            r@ == (moves@, description@),
    {
        MoveSequence { moves, description }
    }

    /// No moves and no description.
    pub fn empty() -> (r: Self)
        ensures
            r@ == (Seq::<NotationMove>::empty(), Seq::<char>::empty()),
    {
        MoveSequence { moves: Vec::new(), description: empty_string() }
    }

    pub fn is_empty(&self) -> (b: bool)
        ensures
            b == (self.moves@.len() == 0),
    {
        self.moves.len() == 0
    }

    /// An independent copy.
    pub fn copy(&self) -> (r: Self)
        ensures
            r@ == self@,
    {
        MoveSequence { moves: copy_moves(&self.moves), description: self.description.clone() }
    }

    /// Appends the moves of `other` and joins its description to this one.
    pub fn extend(&mut self, other: MoveSequence)
        ensures
            final(self)@ == (old(self)@.0 + other@.0, joined_description(old(self)@.1, other@.1)),
    {
        let mut i: usize = 0;
        let ghost start = self.moves@;
        while i < other.moves.len()
            invariant
                i <= other.moves.len(),
                self.moves@ == start + other.moves@.take(i as int),
                self.description@ == old(self).description@,
            decreases other.moves.len() - i,
        {
            self.moves.push(other.moves[i]);
            i = i + 1;
            assert(self.moves@ =~= start + other.moves@.take(i as int));
        }
        assert(other.moves@.take(other.moves.len() as int) =~= other.moves@);
        if self.description.as_str().is_empty() {
            self.description = other.description;
        } else if !other.description.as_str().is_empty() {
            push_str(&mut self.description, ", ");
            push_str(&mut self.description, other.description.as_str());
        }
    }

    /// The moves written out, separated by spaces.
    pub fn to_display_string(&self) -> (s: String)
        ensures
            s@ == sequence_text(self.moves@),
    {
        sequence_to_string(&self.moves)
    }
}

/// The views of a list of move runs.
pub open spec fn move_sequences_view(v: Seq<MoveSequence>) -> Seq<(Seq<NotationMove>, Seq<char>)> {
    v.map_values(|m: MoveSequence| m@)
}

/// All moves of the runs, one run after another.
pub open spec fn flat_moves(v: Seq<(Seq<NotationMove>, Seq<char>)>) -> Seq<NotationMove>
    decreases v.len(),
{
    if v.len() == 0 {
        Seq::empty()
    } else {
        flat_moves(v.drop_last()) + v.last().0
    }
}

/// The non-empty descriptions of the runs, in order.
pub open spec fn nonempty_descriptions(v: Seq<(Seq<NotationMove>, Seq<char>)>) -> Seq<Seq<char>>
    decreases v.len(),
{
    if v.len() == 0 {
        Seq::empty()
    } else if v.last().1.len() == 0 {
        nonempty_descriptions(v.drop_last())
    } else {
        nonempty_descriptions(v.drop_last()).push(v.last().1)
    }
}

/// The text of one run in a listing: `// <description>` on a line of its own when
/// there is a description, then the moves.
pub open spec fn run_block(r: (Seq<NotationMove>, Seq<char>)) -> Seq<char> {
    if r.1.len() == 0 {
        sequence_text(r.0)
    } else {
        "// "@ + r.1 + "\n"@ + sequence_text(r.0)
    }
}

/// The listing of runs: their blocks separated by newlines.
pub open spec fn runs_text(v: Seq<(Seq<NotationMove>, Seq<char>)>) -> Seq<char> {
    join_with(v.map_values(|r: (Seq<NotationMove>, Seq<char>)| run_block(r)), seq!['\n'])
}

/// An ordered collection of move runs.
#[derive(Debug, Clone, PartialEq)]
pub struct MoveSequenceCollection {
    sequences: Vec<MoveSequence>,
}

impl View for MoveSequenceCollection {
    type V = Seq<(Seq<NotationMove>, Seq<char>)>;

    closed spec fn view(&self) -> Seq<(Seq<NotationMove>, Seq<char>)> {
        move_sequences_view(self.sequences@)
    }
}

impl MoveSequenceCollection {
    pub fn new() -> (r: Self)
        ensures
            r@ == Seq::<(Seq<NotationMove>, Seq<char>)>::empty(),
    {
        let r = MoveSequenceCollection { sequences: Vec::new() };
        assert(r@ =~= Seq::<(Seq<NotationMove>, Seq<char>)>::empty());
        r
    }

    pub fn from_single(sequence: MoveSequence) -> (r: Self)
        ensures
            r@ == seq![sequence@],
    {
        let mut v: Vec<MoveSequence> = Vec::new();
        v.push(sequence);
        let r = MoveSequenceCollection { sequences: v };
        assert(r@ =~= seq![sequence@]);
        r
    }

    pub fn from_vec(sequences: Vec<MoveSequence>) -> (r: Self)
        ensures
            r@ == move_sequences_view(sequences@),
    {
        MoveSequenceCollection { sequences }
    }

    pub fn push(&mut self, sequence: MoveSequence)
        ensures
            final(self)@ == old(self)@.push(sequence@),
    {
        self.sequences.push(sequence);
        assert(self@ =~= old(self)@.push(sequence@));
    }

    /// Appends the runs of `other`, in order.
    pub fn extend(&mut self, other: MoveSequenceCollection)
        ensures
            final(self)@ == old(self)@ + other@,
    {
        let mut other = other;
        let ghost start = self@;
        let ghost ov = other@;
        let mut rest: Vec<MoveSequence> = Vec::new();
        rest.append(&mut other.sequences);
        let mut i: usize = 0;
        while i < rest.len()
            invariant
                i <= rest.len(),
                move_sequences_view(rest@) == ov,
                self@ == start + ov.take(i as int),
            decreases rest.len() - i,
        {
            let m = rest[i].copy();
            assert(m@ == ov[i as int]);
            let ghost before = self@;
            self.sequences.push(m);
            assert(self@ =~= before.push(ov[i as int]));
            assert(ov.take(i + 1) =~= ov.take(i as int).push(ov[i as int]));
            i = i + 1;
        }
        assert(ov.take(rest.len() as int) =~= ov);
    }

    pub fn sequences(&self) -> (r: &[MoveSequence])
        ensures
            move_sequences_view(r@) == self@,
    {
        self.sequences.as_slice()
    }

    pub fn into_sequences(self) -> (r: Vec<MoveSequence>)
        ensures
            move_sequences_view(r@) == self@,
    {
        self.sequences
    }

    pub fn is_empty(&self) -> (b: bool)
        ensures
            b == (self@.len() == 0),
    {
        self.sequences.len() == 0
    }

    pub fn len(&self) -> (n: usize)
        ensures
            n == self@.len(),
    {
        self.sequences.len()
    }

    /// All moves of all runs, in order.
    pub fn flatten_moves(&self) -> (r: Sequence)
        ensures
            r@ == flat_moves(self@),
    {
        let ghost v = self@;
        let mut r: Vec<NotationMove> = Vec::new();
        let mut i: usize = 0;
        while i < self.sequences.len()
            invariant
                i <= self.sequences.len(),
                v == self@,
                v.len() == self.sequences.len(),
                r@ == flat_moves(v.take(i as int)),
            decreases self.sequences.len() - i,
        {
            assert(v.take(i + 1).drop_last() =~= v.take(i as int));
            let ghost before = r@;
            let moves = &self.sequences[i].moves;
            assert(moves@ == v[i as int].0);
            let mut j: usize = 0;
            while j < moves.len()
                invariant
                    j <= moves.len(),
                    r@ == before + moves@.take(j as int),
                decreases moves.len() - j,
            {
                r.push(moves[j]);
                j = j + 1;
                assert(r@ =~= before + moves@.take(j as int));
            }
            assert(moves@.take(moves.len() as int) =~= moves@);
            i = i + 1;
        }
        assert(v.take(v.len() as int) =~= v);
        r
    }

    /// The non-empty descriptions joined with `separator`.
    pub fn flatten_description(&self, separator: &str) -> (r: String)
        ensures
            r@ == join_with(nonempty_descriptions(self@), separator@),
    {
        let ghost v = self@;
        let mut r = empty_string();
        let mut count: usize = 0;
        let mut i: usize = 0;
        while i < self.sequences.len()
            invariant
                i <= self.sequences.len(),
                v == self@,
                v.len() == self.sequences.len(),
                count == nonempty_descriptions(v.take(i as int)).len(),
                r@ == join_with(nonempty_descriptions(v.take(i as int)), separator@),
                count <= i,
            decreases self.sequences.len() - i,
        {
            assert(v.take(i + 1).drop_last() =~= v.take(i as int));
            let d = &self.sequences[i].description;
            assert(d@ == v[i as int].1);
            if !d.as_str().is_empty() {
                proof {
                    lemma_join_with_push(nonempty_descriptions(v.take(i as int)), separator@, d@);
                }
                if count > 0 {
                    push_str(&mut r, separator);
                }
                push_str(&mut r, d.as_str());
                count = count + 1;
                proof {
                    if count == 1 {
                        assert(r@ =~= d@);
                    }
                }
            }
            i = i + 1;
        }
        assert(v.take(v.len() as int) =~= v);
        r
    }

    /// One run holding all moves, described by the non-empty descriptions joined with ", ".
    pub fn into_single(self) -> (r: MoveSequence)
        ensures
            r@ == (flat_moves(self@), join_with(nonempty_descriptions(self@), ", "@)),
    {
        let moves = self.flatten_moves();
        let description = self.flatten_description(", ");
        MoveSequence::new(moves, description)
    }

    /// Each run as `// <description>` (when there is one) on its own line
    /// followed by its moves; runs separated by newlines.
    pub fn to_display_string(&self) -> (s: String)
        ensures
            s@ == runs_text(self@),
    {
        let ghost v = self@;
        let ghost blocks = v.map_values(|r: (Seq<NotationMove>, Seq<char>)| run_block(r));
        let mut s = empty_string();
        let mut i: usize = 0;
        while i < self.sequences.len()
            invariant
                i <= self.sequences.len(),
                v == self@,
                v.len() == self.sequences.len(),
                blocks == v.map_values(|r: (Seq<NotationMove>, Seq<char>)| run_block(r)),
                s@ == join_with(blocks.take(i as int), seq!['\n']),
            decreases self.sequences.len() - i,
        {
            proof {
                lemma_join_with_push(blocks.take(i as int), seq!['\n'], blocks[i as int]);
                assert(blocks.take(i + 1) =~= blocks.take(i as int).push(blocks[i as int]));
            }
            let ghost before = s@;
            let seq = &self.sequences[i];
            assert(seq@ == v[i as int]);
            assert(blocks[i as int] == run_block(v[i as int]));
            if i > 0 {
                push_char(&mut s, '\n');
            }
            if !seq.description.as_str().is_empty() {
                push_str(&mut s, "// ");
                push_str(&mut s, seq.description.as_str());
                push_str(&mut s, "\n");
            }
            let t = sequence_to_string(&seq.moves);
            push_str(&mut s, t.as_str());
            proof {
                if i == 0 {
                    assert(s@ =~= blocks[0]);
                } else {
                    assert(s@ =~= before + seq!['\n'] + blocks[i as int]);
                }
            }
            i = i + 1;
        }
        assert(blocks.take(v.len() as int) =~= blocks);
        s
    }
}

impl Default for MoveSequenceCollection {
    fn default() -> (r: Self)
        ensures
            r@ == Seq::<(Seq<NotationMove>, Seq<char>)>::empty(),
    {
        MoveSequenceCollection::new()
    }
}

/// The sticker named by a corner swap's second slot and twist (the key of the
/// corner algorithm tables).
pub open spec fn corner_swap_sticker(t: int, o: int) -> Seq<char> {
    if t == 0 {
        if o == 0 { "UBL"@ } else if o == 1 { "BUL"@ } else { "LUB"@ }
    } else if t == 1 {
        if o == 0 { "UBR"@ } else if o == 1 { "RUB"@ } else { "BUR"@ }
    } else if t == 2 {
        if o == 0 { "UFR"@ } else if o == 1 { "FUR"@ } else { "RUF"@ }
    } else if t == 3 {
        if o == 0 { "UFL"@ } else if o == 1 { "LUF"@ } else { "FUL"@ }
    } else if t == 4 {
        if o == 0 { "DBL"@ } else if o == 1 { "LDB"@ } else { "BDL"@ }
    } else if t == 5 {
        if o == 0 { "DBR"@ } else if o == 1 { "BDR"@ } else { "RDB"@ }
    } else if t == 6 {
        if o == 0 { "DFR"@ } else if o == 1 { "RDF"@ } else { "FDR"@ }
    } else {
        if o == 0 { "DFL"@ } else if o == 1 { "FDL"@ } else { "LDF"@ }
    }
}

/// The sticker named by a corner twist's slot and direction (the key of the twist table).
pub open spec fn corner_twist_sticker(t: int, o: int) -> Seq<char> {
    if t == 0 {
        if o == 0 { "UBL"@ } else if o == 1 { "LUB"@ } else { "BUL"@ }
    } else if t == 1 {
        if o == 0 { "UBR"@ } else if o == 1 { "BUR"@ } else { "RUB"@ }
    } else if t == 2 {
        if o == 0 { "UFR"@ } else if o == 1 { "RUF"@ } else { "FUR"@ }
    } else if t == 3 {
        if o == 0 { "UFL"@ } else if o == 1 { "FUL"@ } else { "LUF"@ }
    } else if t == 4 {
        if o == 0 { "DBL"@ } else if o == 1 { "BDL"@ } else { "LDB"@ }
    } else if t == 5 {
        if o == 0 { "DBR"@ } else if o == 1 { "RDB"@ } else { "BDR"@ }
    } else if t == 6 {
        if o == 0 { "DFR"@ } else if o == 1 { "FDR"@ } else { "RDF"@ }
    } else {
        if o == 0 { "DFL"@ } else if o == 1 { "LDF"@ } else { "FDL"@ }
    }
}

/// The colour of the face that a face letter names (white up, yellow down,
/// orange left, red right, green front, blue back).
pub open spec fn face_letter_color(c: char) -> CubeColor {
    if c == 'U' {
        CubeColor::White
    } else if c == 'D' {
        CubeColor::Yellow
    } else if c == 'L' {
        CubeColor::Orange
    } else if c == 'R' {
        CubeColor::Red
    } else if c == 'F' {
        CubeColor::Green
    } else if c == 'B' {
        CubeColor::Blue
    } else {
        CubeColor::Void
    }
}

/// The sticker that a swap to slot `t` with orientation `o` names is the
/// piece's `o`-th colour in the cube's colour model: the up or down colour for
/// 0, then the other two in the piece's colour order.
pub proof fn lemma_swap_sticker_names_piece_color(t: int, o: int)
    requires
        0 <= t < 8,
        0 <= o < 3,
    ensures
        corner_swap_sticker(t, o).len() == 3,
        face_letter_color(corner_swap_sticker(t, o)[0]) == corner_base_colors(t)[o],
{
    reveal_strlit("UBL");
    reveal_strlit("BUL");
    reveal_strlit("LUB");
    reveal_strlit("UBR");
    reveal_strlit("RUB");
    reveal_strlit("BUR");
    reveal_strlit("UFR");
    reveal_strlit("FUR");
    reveal_strlit("RUF");
    reveal_strlit("UFL");
    reveal_strlit("LUF");
    reveal_strlit("FUL");
    reveal_strlit("DBL");
    reveal_strlit("LDB");
    reveal_strlit("BDL");
    reveal_strlit("DBR");
    reveal_strlit("BDR");
    reveal_strlit("RDB");
    reveal_strlit("DFR");
    reveal_strlit("RDF");
    reveal_strlit("FDR");
    reveal_strlit("DFL");
    reveal_strlit("FDL");
    reveal_strlit("LDF");
}

/// The slots the solutions swap through are the DB edge and the UBL corner,
/// and the slots the neighbourhood searches swap through are the UF edge and
/// the UFR corner.
pub proof fn lemma_buffer_slots_named()
    ensures
        edge_letters(EDGE_SOLVER_BUFFER as int) == ('D', 'B'),
        edge_letters(EDGE_BUFFER as int) == ('U', 'F'),
        corner_swap_sticker(CORNER_SOLVER_BUFFER as int, 0) == "UBL"@,
        corner_swap_sticker(CORNER_BUFFER as int, 0) == "UFR"@,
{
}

/// A quarter turn of a face moves exactly the corners whose names carry that
/// face's letter, and exactly the edges whose letters include it: the slot
/// names of the stickers agree with the cube's turns.
pub proof fn lemma_face_turn_moves_named_pieces(m: NotationMove, t: int, e: int)
    requires
        is_quarter_face_turn(m),
        0 <= t < 8,
        0 <= e < 12,
    ensures
        ({
            let c = move_parts(m).0;
            let n = corner_swap_sticker(t, 0);
            &&& apply_notation(solved_view(), m).cp[t] != t <==> (n[0] == c || n[1] == c || n[2] == c)
            &&& apply_notation(solved_view(), m).ep[e] != e <==> (edge_letters(e).0 == c || edge_letters(e).1 == c)
        }),
{
    reveal_with_fuel(apply_steps, 2);
    reveal_strlit("UBL");
    reveal_strlit("UBR");
    reveal_strlit("UFR");
    reveal_strlit("UFL");
    reveal_strlit("DBL");
    reveal_strlit("DBR");
    reveal_strlit("DFR");
    reveal_strlit("DFL");
    let l = move_steps(m)[0].0;
    assert(move_steps(m).drop_last() =~= Seq::<(u8, u8)>::empty());
    assert(apply_notation(solved_view(), m) == turn_times(solved_view(), l, 1));
    assert(turn_times(solved_view(), l, 0) == solved_view());
}

/// A twist of a slot in one direction is looked up under the sticker that a
/// swap of the same slot names with the opposite direction.
pub proof fn lemma_twist_sticker_is_opposite_swap_sticker(t: int, o: int)
    requires
        0 <= t < 8,
        0 <= o < 3,
    ensures
        corner_twist_sticker(t, o) == corner_swap_sticker(t, (3 - o) % 3),
{
}

/// A lone twist of slot `t` in direction `o` converts to the twist table's
/// algorithm under the sticker that a swap of slot `t` names with the opposite
/// direction, described by that sticker; a missing entry is an error.
pub proof fn lemma_single_twist_run(tb: TurnTablesView, t: int, o: int)
    requires
        0 <= t < 8,
        0 <= o < 3,
    ensures
        ({
            let k = corner_swap_sticker(t, (3 - o) % 3);
            let r = corner_runs_from(
                tb,
                seq![CornerOperation::Twist(CornerTwistOperation { target: t as usize, orientation: o as u8 })],
                0,
            );
            &&& table_get(tb.ufr_twist, k) is None ==> r is Err
            &&& table_get(tb.ufr_twist, k) matches Some(text) ==> r == match read_run(text, "Twist: "@ + k) {
                Ok(run) => Ok::<Seq<(Seq<NotationMove>, Seq<char>)>, Seq<char>>(seq![run]),
                Err(e) => Err(e),
            }
        }),
{
    lemma_twist_sticker_is_opposite_swap_sticker(t, o);
    let ops = seq![CornerOperation::Twist(CornerTwistOperation { target: t as usize, orientation: o as u8 })];
    assert(corner_runs_from(tb, ops, 1) == Ok::<Seq<(Seq<NotationMove>, Seq<char>)>, Seq<char>>(Seq::empty()));
    let k = corner_swap_sticker(t, (3 - o) % 3);
    if let Some(text) = table_get(tb.ufr_twist, k) {
        if let Ok(run) = read_run(text, "Twist: "@ + k) {
            assert(seq![run] + Seq::<(Seq<NotationMove>, Seq<char>)>::empty() =~= seq![run]);
        }
    }
}

fn corner_swap_sticker_str(t: usize, o: u8) -> (s: &'static str)
    requires
        t < 8,
        o < 3,
    ensures
        s@ == corner_swap_sticker(t as int, o as int),
{
    if t == 0 {
        if o == 0 { "UBL" } else if o == 1 { "BUL" } else { "LUB" }
    } else if t == 1 {
        if o == 0 { "UBR" } else if o == 1 { "RUB" } else { "BUR" }
    } else if t == 2 {
        if o == 0 { "UFR" } else if o == 1 { "FUR" } else { "RUF" }
    } else if t == 3 {
        if o == 0 { "UFL" } else if o == 1 { "LUF" } else { "FUL" }
    } else if t == 4 {
        if o == 0 { "DBL" } else if o == 1 { "LDB" } else { "BDL" }
    } else if t == 5 {
        if o == 0 { "DBR" } else if o == 1 { "BDR" } else { "RDB" }
    } else if t == 6 {
        if o == 0 { "DFR" } else if o == 1 { "RDF" } else { "FDR" }
    } else {
        if o == 0 { "DFL" } else if o == 1 { "FDL" } else { "LDF" }
    }
}

fn corner_twist_sticker_str(t: usize, o: u8) -> (s: &'static str)
    requires
        t < 8,
        o < 3,
    ensures
        s@ == corner_twist_sticker(t as int, o as int),
{
    if t == 0 {
        if o == 0 { "UBL" } else if o == 1 { "LUB" } else { "BUL" }
    } else if t == 1 {
        if o == 0 { "UBR" } else if o == 1 { "BUR" } else { "RUB" }
    } else if t == 2 {
        if o == 0 { "UFR" } else if o == 1 { "RUF" } else { "FUR" }
    } else if t == 3 {
        if o == 0 { "UFL" } else if o == 1 { "FUL" } else { "LUF" }
    } else if t == 4 {
        if o == 0 { "DBL" } else if o == 1 { "BDL" } else { "LDB" }
    } else if t == 5 {
        if o == 0 { "DBR" } else if o == 1 { "RDB" } else { "BDR" }
    } else if t == 6 {
        if o == 0 { "DFR" } else if o == 1 { "FDR" } else { "RDF" }
    } else {
        if o == 0 { "DFL" } else if o == 1 { "LDF" } else { "FDL" }
    }
}

fn edge_sticker_string(t: usize, o: u8) -> (s: String)
    requires
        t < 12,
    ensures
        s@ == edge_sticker(t as int, o as int),
{
    let mut s = empty_string();
    push_edge_sticker(&mut s, t, o);
    s
}

/// The value of the first entry with key `k`, if any.
pub open spec fn table_get<V>(t: Seq<(Seq<char>, V)>, k: Seq<char>) -> Option<V>
    decreases t.len(),
{
    if t.len() == 0 {
        None
    } else if t[0].0 == k {
        Some(t[0].1)
    } else {
        table_get(t.drop_first(), k)
    }
}

proof fn lemma_table_get_skip<V>(t: Seq<(Seq<char>, V)>, k: Seq<char>, i: int)
    requires
        0 <= i < t.len(),
        t[i].0 != k,
    ensures
        table_get(t.skip(i), k) == table_get(t.skip(i + 1), k),
{
    assert(t.skip(i).drop_first() =~= t.skip(i + 1));
}

fn lookup_string<'a>(t: &'a Vec<(String, String)>, key: &String) -> (r: Option<&'a String>)
    ensures
        match r {
            Some(s) => table_get(t.deep_view(), key@) == Some(s@),
            None => table_get(t.deep_view(), key@) is None,
        },
{
    let ghost tv = t.deep_view();
    let mut i: usize = 0;
    assert(tv.skip(0) =~= tv);
    while i < t.len()
        invariant
            i <= t.len(),
            tv == t.deep_view(),
            table_get(tv, key@) == table_get(tv.skip(i as int), key@),
        decreases t.len() - i,
    {
        if t[i].0 == *key {
            assert(tv.skip(i as int)[0] == tv[i as int]);
            return Some(&t[i].1);
        }
        proof {
            lemma_table_get_skip(tv, key@, i as int);
        }
        i = i + 1;
    }
    None
}

fn lookup_table<'a>(t: &'a Vec<(String, Vec<(String, String)>)>, key: &String) -> (r: Option<&'a Vec<(String, String)>>)
    ensures
        match r {
            Some(s) => table_get(t.deep_view(), key@) == Some(s.deep_view()),
            None => table_get(t.deep_view(), key@) is None,
        },
{
    let ghost tv = t.deep_view();
    let mut i: usize = 0;
    assert(tv.skip(0) =~= tv);
    while i < t.len()
        invariant
            i <= t.len(),
            tv == t.deep_view(),
            table_get(tv, key@) == table_get(tv.skip(i as int), key@),
        decreases t.len() - i,
    {
        if t[i].0 == *key {
            assert(tv.skip(i as int)[0] == tv[i as int]);
            return Some(&t[i].1);
        }
        proof {
            lemma_table_get_skip(tv, key@, i as int);
        }
        i = i + 1;
    }
    None
}

/// The algorithm tables: for the corners, the two-swap table (first sticker, then
/// second sticker, to moves), the parity table and the twist table; for the edges,
/// the two-swap table and the flip table.
pub struct TurnTablesView {
    pub ufr_expanded: Seq<(Seq<char>, Seq<(Seq<char>, Seq<char>)>)>,
    pub ufr_parity: Seq<(Seq<char>, Seq<char>)>,
    pub ufr_twist: Seq<(Seq<char>, Seq<char>)>,
    pub uf_expanded: Seq<(Seq<char>, Seq<(Seq<char>, Seq<char>)>)>,
    pub uf_flip: Seq<(Seq<char>, Seq<char>)>,
}

/// No table holds a key twice, nor does any inner table of the two-swap tables.
pub open spec fn turn_tables_keys_distinct(tb: TurnTablesView) -> bool {
    &&& nested_keys_distinct(tb.ufr_expanded)
    &&& keys_distinct(tb.ufr_parity)
    &&& keys_distinct(tb.ufr_twist)
    &&& nested_keys_distinct(tb.uf_expanded)
    &&& keys_distinct(tb.uf_flip)
}

/// A move run read from an algorithm's text, or the reading error.
pub open spec fn read_run(text: Seq<char>, description: Seq<char>) -> Result<(Seq<NotationMove>, Seq<char>), Seq<char>> {
    match parse_words(words(text)) {
        Ok(m) => Ok((m, description)),
        Err(e) => Err(e),
    }
}

/// `first` put in front of the runs of `rest`; the first error wins.
pub open spec fn prepend_run(
    first: Result<(Seq<NotationMove>, Seq<char>), Seq<char>>,
    rest: Result<Seq<(Seq<NotationMove>, Seq<char>)>, Seq<char>>,
) -> Result<Seq<(Seq<NotationMove>, Seq<char>)>, Seq<char>> {
    match first {
        Err(e) => Err(e),
        Ok(r) => match rest {
            Ok(v) => Ok(seq![r] + v),
            Err(e) => Err(e),
        },
    }
}

/// `pre` put in front of the runs of `rest`, an error kept as it is.
pub open spec fn prefix_runs(
    pre: Seq<(Seq<NotationMove>, Seq<char>)>,
    rest: Result<Seq<(Seq<NotationMove>, Seq<char>)>, Seq<char>>,
) -> Result<Seq<(Seq<NotationMove>, Seq<char>)>, Seq<char>> {
    match rest {
        Ok(v) => Ok(pre + v),
        Err(e) => Err(e),
    }
}

/// The algorithm text of the two-swap table for the stickers `a` then `b`.
pub open spec fn pair_entry(
    t: Seq<(Seq<char>, Seq<(Seq<char>, Seq<char>)>)>,
    a: Seq<char>,
    b: Seq<char>,
) -> Option<Seq<char>> {
    match table_get(t, a) {
        Some(inner) => table_get(inner, b),
        None => None,
    }
}

/// The two-swap description `<a> → <b>`.
pub open spec fn pair_description(a: Seq<char>, b: Seq<char>) -> Seq<char> {
    a + " → "@ + b
}

pub open spec fn corner_swap_key(o: CornerSwapOperation) -> Seq<char> {
    corner_swap_sticker(o.target2 as int, o.orientation as int)
}

/// Every operation names a sticker of the tables: slots below 8 and twists below 3.
pub open spec fn corner_ops_stickered(ops: Seq<CornerOperation>) -> bool {
    forall|i: int|
        0 <= i < ops.len() ==> match #[trigger] ops[i] {
            CornerOperation::Swap(o) => o.target2 < 8 && o.orientation < 3,
            CornerOperation::Twist(o) => o.target < 8 && o.orientation < 3,
        }
}

/// Every operation names a sticker of the tables: slots below 12.
pub open spec fn edge_ops_stickered(ops: Seq<EdgeOperation>) -> bool {
    forall|i: int|
        0 <= i < ops.len() ==> match #[trigger] ops[i] {
            EdgeOperation::Swap(o) => o.target2 < 12,
            EdgeOperation::Flip(o) => o.target < 12,
        }
}

/// The runs for the corner operations from index `i` on: two consecutive swaps
/// whose stickers the two-swap table holds become one run; otherwise a swap
/// becomes its parity algorithm and a twist its twist algorithm. The first
/// missing entry or unreadable algorithm is the error.
pub open spec fn corner_runs_from(tb: TurnTablesView, ops: Seq<CornerOperation>, i: int) -> Result<
    Seq<(Seq<NotationMove>, Seq<char>)>,
    Seq<char>,
>
    decreases ops.len() - i,
{
    if i < 0 || i >= ops.len() {
        Ok(Seq::empty())
    } else if i + 1 < ops.len() && ops[i] is Swap && ops[i + 1] is Swap && pair_entry(
        tb.ufr_expanded,
        corner_swap_key(ops[i]->Swap_0),
        corner_swap_key(ops[i + 1]->Swap_0),
    ) is Some {
        let a = corner_swap_key(ops[i]->Swap_0);
        let b = corner_swap_key(ops[i + 1]->Swap_0);
        prepend_run(
            read_run(pair_entry(tb.ufr_expanded, a, b)->Some_0, pair_description(a, b)),
            corner_runs_from(tb, ops, i + 2),
        )
    } else {
        match ops[i] {
            CornerOperation::Swap(o) => {
                let k = corner_swap_key(o);
                match table_get(tb.ufr_parity, k) {
                    Some(text) => prepend_run(read_run(text, "Parity: "@ + k), corner_runs_from(tb, ops, i + 1)),
                    None => Err("Parity move not found for target_sticker: "@ + k),
                }
            },
            CornerOperation::Twist(o) => {
                let k = corner_twist_sticker(o.target as int, o.orientation as int);
                match table_get(tb.ufr_twist, k) {
                    Some(text) => prepend_run(read_run(text, "Twist: "@ + k), corner_runs_from(tb, ops, i + 1)),
                    None => Err("Twist move not found for target_sticker: "@ + k),
                }
            },
        }
    }
}

pub open spec fn edge_swap_key(o: EdgeSwapOperation) -> Seq<char> {
    edge_sticker(o.target2 as int, o.orientation as int)
}

/// The runs for the edge operations from index `i` on: two consecutive swaps
/// whose stickers the two-swap table holds become one run; a flip becomes its
/// flip algorithm; any other swap gives nothing. The first missing flip entry or
/// unreadable algorithm is the error.
pub open spec fn edge_runs_from(tb: TurnTablesView, ops: Seq<EdgeOperation>, i: int) -> Result<
    Seq<(Seq<NotationMove>, Seq<char>)>,
    Seq<char>,
>
    decreases ops.len() - i,
{
    if i < 0 || i >= ops.len() {
        Ok(Seq::empty())
    } else if i + 1 < ops.len() && ops[i] is Swap && ops[i + 1] is Swap && pair_entry(
        tb.uf_expanded,
        edge_swap_key(ops[i]->Swap_0),
        edge_swap_key(ops[i + 1]->Swap_0),
    ) is Some {
        let a = edge_swap_key(ops[i]->Swap_0);
        let b = edge_swap_key(ops[i + 1]->Swap_0);
        prepend_run(
            read_run(pair_entry(tb.uf_expanded, a, b)->Some_0, pair_description(a, b)),
            edge_runs_from(tb, ops, i + 2),
        )
    } else {
        match ops[i] {
            EdgeOperation::Swap(_) => edge_runs_from(tb, ops, i + 1),
            EdgeOperation::Flip(o) => {
                let k = edge_sticker(o.target as int, 0);
                match table_get(tb.uf_flip, k) {
                    Some(text) => prepend_run(read_run(text, "Flip: "@ + k), edge_runs_from(tb, ops, i + 1)),
                    None => Err("Flip move not found for target_sticker: "@ + k),
                }
            },
        }
    }
}

/// The tables read from the five JSON texts: the two-swap tables as two-level
/// documents, the others as maps of strings; the first text that cannot be read
/// gives the error (the map texts' errors prefixed with the table's name).
pub open spec fn tables_from_json(
    ufr_expanded: Seq<char>,
    ufr_parity: Seq<char>,
    ufr_twist: Seq<char>,
    uf_expanded: Seq<char>,
    uf_flip: Seq<char>,
) -> Result<TurnTablesView, Seq<char>> {
    match json_two_level_reading(ufr_expanded) {
        Err(e) => Err(e),
        Ok(d1) => match json_string_map_reading(ufr_parity) {
            Err(e) => Err("Failed to parse ufr_parity: "@ + e),
            Ok(p) => match json_string_map_reading(ufr_twist) {
                Err(e) => Err("Failed to parse ufr_twist: "@ + e),
                Ok(t) => match json_two_level_reading(uf_expanded) {
                    Err(e) => Err(e),
                    Ok(d2) => match json_string_map_reading(uf_flip) {
                        Err(e) => Err("Failed to parse uf_flip: "@ + e),
                        Ok(f) => Ok(
                            TurnTablesView {
                                ufr_expanded: nested_table(d1),
                                ufr_parity: p,
                                ufr_twist: t,
                                uf_expanded: nested_table(d2),
                                uf_flip: f,
                            },
                        ),
                    },
                },
            },
        },
    }
}

fn prefixed(prefix: &str, e: String) -> (r: String)
    ensures
        r@ == prefix@ + e@,
{
    let mut r = empty_string();
    push_str(&mut r, prefix);
    push_str(&mut r, e.as_str());
    r
}

/// Converts corner and edge operations into move runs with algorithm tables.
pub struct OperationsToTurns {
    ufr_expanded: Vec<(String, Vec<(String, String)>)>,
    ufr_parity: Vec<(String, String)>,
    ufr_twist: Vec<(String, String)>,
    uf_expanded: Vec<(String, Vec<(String, String)>)>,
    uf_flip: Vec<(String, String)>,
}

impl View for OperationsToTurns {
    type V = TurnTablesView;

    closed spec fn view(&self) -> TurnTablesView {
        TurnTablesView {
            ufr_expanded: self.ufr_expanded.deep_view(),
            ufr_parity: self.ufr_parity.deep_view(),
            ufr_twist: self.ufr_twist.deep_view(),
            uf_expanded: self.uf_expanded.deep_view(),
            uf_flip: self.uf_flip.deep_view(),
        }
    }
}

impl OperationsToTurns {
    /// Reads the five tables from JSON texts (see [`tables_from_json`]).
    pub fn new(
        ufr_expanded_json: &str,
        ufr_parity_json: &str,
        ufr_twist_json: &str,
        uf_expanded_json: &str,
        uf_flip_json: &str,
    ) -> (r: Result<Self, String>)
        ensures
            match r {
                Ok(c) => tables_from_json(
                    ufr_expanded_json@,
                    ufr_parity_json@,
                    ufr_twist_json@,
                    uf_expanded_json@,
                    uf_flip_json@,
                ) == Ok::<TurnTablesView, Seq<char>>(c@),
                Err(e) => tables_from_json(
                    ufr_expanded_json@,
                    ufr_parity_json@,
                    ufr_twist_json@,
                    uf_expanded_json@,
                    uf_flip_json@,
                ) == Err::<TurnTablesView, Seq<char>>(e@),
            },
            r matches Ok(c) ==> turn_tables_keys_distinct(c@),
    {
        let d1 = match read_json_two_levels(ufr_expanded_json) {
            Ok(d) => d,
            Err(e) => return Err(e),
        };
        let p = match read_json_string_map(ufr_parity_json) {
            Ok(v) => v,
            Err(e) => return Err(prefixed("Failed to parse ufr_parity: ", e)),
        };
        let t = match read_json_string_map(ufr_twist_json) {
            Ok(v) => v,
            Err(e) => return Err(prefixed("Failed to parse ufr_twist: ", e)),
        };
        let d2 = match read_json_two_levels(uf_expanded_json) {
            Ok(d) => d,
            Err(e) => return Err(e),
        };
        let f = match read_json_string_map(uf_flip_json) {
            Ok(v) => v,
            Err(e) => return Err(prefixed("Failed to parse uf_flip: ", e)),
        };
        let ufr_expanded = nested_table_of(&d1);
        let uf_expanded = nested_table_of(&d2);
        proof {
            lemma_nested_table_keys(d1.deep_view());
            lemma_nested_table_keys(d2.deep_view());
        }
        Ok(OperationsToTurns::from_tables(ufr_expanded, p, t, uf_expanded, f))
    }

    /// A converter with the given tables.
    pub fn from_tables(
        ufr_expanded: Vec<(String, Vec<(String, String)>)>,
        ufr_parity: Vec<(String, String)>,
        ufr_twist: Vec<(String, String)>,
        uf_expanded: Vec<(String, Vec<(String, String)>)>,
        uf_flip: Vec<(String, String)>,
    ) -> (r: Self)
        ensures
            r@ == (TurnTablesView {
                ufr_expanded: ufr_expanded.deep_view(),
                ufr_parity: ufr_parity.deep_view(),
                ufr_twist: ufr_twist.deep_view(),
                uf_expanded: uf_expanded.deep_view(),
                uf_flip: uf_flip.deep_view(),
            }),
    {
        OperationsToTurns { ufr_expanded, ufr_parity, ufr_twist, uf_expanded, uf_flip }
    }

    fn read_algorithm(text: &String, description: String) -> (r: Result<MoveSequence, String>)
        ensures
            match r {
                Ok(m) => read_run(text@, description@) == Ok::<(Seq<NotationMove>, Seq<char>), Seq<char>>(m@),
                Err(e) => read_run(text@, description@) == Err::<(Seq<NotationMove>, Seq<char>), Seq<char>>(e@),
            },
    {
        match parse_sequence(text.as_str()) {
            Ok(moves) => Ok(MoveSequence::new(moves, description)),
            Err(e) => Err(e),
        }
    }

    fn pair_run(
        table: &Vec<(String, Vec<(String, String)>)>,
        a: String,
        b: String,
    ) -> (r: Result<Option<MoveSequence>, String>)
        ensures
            match r {
                Ok(Some(m)) => pair_entry(table.deep_view(), a@, b@) is Some && read_run(
                    pair_entry(table.deep_view(), a@, b@)->Some_0,
                    pair_description(a@, b@),
                ) == Ok::<(Seq<NotationMove>, Seq<char>), Seq<char>>(m@),
                Ok(None) => pair_entry(table.deep_view(), a@, b@) is None,
                Err(e) => pair_entry(table.deep_view(), a@, b@) is Some && read_run(
                    pair_entry(table.deep_view(), a@, b@)->Some_0,
                    pair_description(a@, b@),
                ) == Err::<(Seq<NotationMove>, Seq<char>), Seq<char>>(e@),
            },
    {
        match lookup_table(table, &a) {
            Some(inner) => match lookup_string(inner, &b) {
                Some(text) => {
                    let mut d = empty_string();
                    push_str(&mut d, a.as_str());
                    push_str(&mut d, " → ");
                    push_str(&mut d, b.as_str());
                    match OperationsToTurns::read_algorithm(text, d) {
                        Ok(m) => Ok(Some(m)),
                        Err(e) => Err(e),
                    }
                },
                None => Ok(None),
            },
            None => Ok(None),
        }
    }

    fn single_run(
        table: &Vec<(String, String)>,
        key: String,
        label: &str,
        missing: &str,
    ) -> (r: Result<MoveSequence, String>)
        ensures
            match table_get(table.deep_view(), key@) {
                Some(text) => match r {
                    Ok(m) => read_run(text, label@ + key@) == Ok::<(Seq<NotationMove>, Seq<char>), Seq<char>>(m@),
                    Err(e) => read_run(text, label@ + key@) == Err::<(Seq<NotationMove>, Seq<char>), Seq<char>>(e@),
                },
                None => r == Err::<MoveSequence, String>(r->Err_0) && r->Err_0@ == missing@ + key@,
            },
    {
        match lookup_string(table, &key) {
            Some(text) => {
                let mut d = empty_string();
                push_str(&mut d, label);
                push_str(&mut d, key.as_str());
                OperationsToTurns::read_algorithm(text, d)
            },
            None => {
                let mut e = empty_string();
                push_str(&mut e, missing);
                push_str(&mut e, key.as_str());
                Err(e)
            },
        }
    }

    /// The move runs of corner operations (see [`corner_runs_from`]).
    pub fn convert(&self, operations: &[CornerOperation]) -> (r: Result<MoveSequenceCollection, String>)
        requires
            corner_ops_stickered(operations@),
        ensures
            match r {
                Ok(c) => corner_runs_from(self@, operations@, 0) == Ok::<
                    Seq<(Seq<NotationMove>, Seq<char>)>,
                    Seq<char>,
                >(c@),
                Err(e) => corner_runs_from(self@, operations@, 0) == Err::<
                    Seq<(Seq<NotationMove>, Seq<char>)>,
                    Seq<char>,
                >(e@),
            },
    {
        match self.convert_to_vec(operations) {
            Ok(v) => Ok(MoveSequenceCollection::from_vec(v)),
            Err(e) => Err(e),
        }
    }

    fn convert_to_vec(&self, operations: &[CornerOperation]) -> (r: Result<Vec<MoveSequence>, String>)
        requires
            corner_ops_stickered(operations@),
        ensures
            match r {
                Ok(v) => corner_runs_from(self@, operations@, 0) == Ok::<
                    Seq<(Seq<NotationMove>, Seq<char>)>,
                    Seq<char>,
                >(move_sequences_view(v@)),
                Err(e) => corner_runs_from(self@, operations@, 0) == Err::<
                    Seq<(Seq<NotationMove>, Seq<char>)>,
                    Seq<char>,
                >(e@),
            },
    {
        let ghost tb = self@;
        let ghost ops = operations@;
        let mut result: Vec<MoveSequence> = Vec::new();
        let mut i: usize = 0;
        assert(prefix_runs(move_sequences_view(result@), corner_runs_from(tb, ops, 0)) =~~= corner_runs_from(
            tb,
            ops,
            0,
        )) by {
            assert(move_sequences_view(result@) =~= Seq::empty());
            match corner_runs_from(tb, ops, 0) {
                Ok(v) => {
                    assert(Seq::<(Seq<NotationMove>, Seq<char>)>::empty() + v =~= v);
                },
                Err(_) => {},
            }
        }
        while i < operations.len()
            invariant
                i <= operations.len(),
                tb == self@,
                ops == operations@,
                corner_ops_stickered(ops),
                corner_runs_from(tb, ops, 0) == prefix_runs(move_sequences_view(result@), corner_runs_from(tb, ops, i as int)),
            decreases operations.len() - i,
        {
            let ghost pre = move_sequences_view(result@);
            if i + 1 < operations.len() {
                match (operations[i], operations[i + 1]) {
                    (CornerOperation::Swap(a), CornerOperation::Swap(b)) => {
                        assert(ops[i as int] == CornerOperation::Swap(a));
                        assert(ops[i + 1] == CornerOperation::Swap(b));
                        let ka = corner_swap_sticker_str(a.target2, a.orientation);
                        let kb = corner_swap_sticker_str(b.target2, b.orientation);
                        match OperationsToTurns::pair_run(&self.ufr_expanded, ka.to_owned(), kb.to_owned()) {
                            Ok(Some(m)) => {
                                let ghost mv = m@;
                                result.push(m);
                                proof {
                                    assert(move_sequences_view(result@) =~= pre.push(mv));
                                    match corner_runs_from(tb, ops, i + 2) {
                                        Ok(v) => {
                                            assert(pre + (seq![mv] + v) =~= pre.push(mv) + v);
                                        },
                                        Err(_) => {},
                                    }
                                }
                                i = i + 2;
                                continue;
                            },
                            Ok(None) => {},
                            Err(e) => {
                                return Err(e);
                            },
                        }
                    },
                    _ => {},
                }
            }
            match operations[i] {
                CornerOperation::Swap(a) => {
                    assert(ops[i as int] == CornerOperation::Swap(a));
                    let k = corner_swap_sticker_str(a.target2, a.orientation);
                    match OperationsToTurns::single_run(
                        &self.ufr_parity,
                        k.to_owned(),
                        "Parity: ",
                        "Parity move not found for target_sticker: ",
                    ) {
                        Ok(m) => {
                            let ghost mv = m@;
                            result.push(m);
                            proof {
                                assert(move_sequences_view(result@) =~= pre.push(mv));
                                match corner_runs_from(tb, ops, i + 1) {
                                    Ok(v) => {
                                        assert(pre + (seq![mv] + v) =~= pre.push(mv) + v);
                                    },
                                    Err(_) => {},
                                }
                            }
                        },
                        Err(e) => {
                            return Err(e);
                        },
                    }
                },
                CornerOperation::Twist(t) => {
                    assert(ops[i as int] == CornerOperation::Twist(t));
                    let k = corner_twist_sticker_str(t.target, t.orientation);
                    match OperationsToTurns::single_run(
                        &self.ufr_twist,
                        k.to_owned(),
                        "Twist: ",
                        "Twist move not found for target_sticker: ",
                    ) {
                        Ok(m) => {
                            let ghost mv = m@;
                            result.push(m);
                            proof {
                                assert(move_sequences_view(result@) =~= pre.push(mv));
                                match corner_runs_from(tb, ops, i + 1) {
                                    Ok(v) => {
                                        assert(pre + (seq![mv] + v) =~= pre.push(mv) + v);
                                    },
                                    Err(_) => {},
                                }
                            }
                        },
                        Err(e) => {
                            return Err(e);
                        },
                    }
                },
            }
            i = i + 1;
        }
        assert(move_sequences_view(result@) + Seq::<(Seq<NotationMove>, Seq<char>)>::empty() =~= move_sequences_view(result@));
        Ok(result)
    }

    /// The move runs of edge operations (see [`edge_runs_from`]).
    pub fn convert_edge_operations(&self, operations: &[EdgeOperation]) -> (r: Result<MoveSequenceCollection, String>)
        requires
            edge_ops_stickered(operations@),
        ensures
            match r {
                Ok(c) => edge_runs_from(self@, operations@, 0) == Ok::<
                    Seq<(Seq<NotationMove>, Seq<char>)>,
                    Seq<char>,
                >(c@),
                Err(e) => edge_runs_from(self@, operations@, 0) == Err::<
                    Seq<(Seq<NotationMove>, Seq<char>)>,
                    Seq<char>,
                >(e@),
            },
    {
        match self.convert_edge_to_vec(operations) {
            Ok(v) => Ok(MoveSequenceCollection::from_vec(v)),
            Err(e) => Err(e),
        }
    }

    fn convert_edge_to_vec(&self, operations: &[EdgeOperation]) -> (r: Result<Vec<MoveSequence>, String>)
        requires
            edge_ops_stickered(operations@),
        ensures
            match r {
                Ok(v) => edge_runs_from(self@, operations@, 0) == Ok::<
                    Seq<(Seq<NotationMove>, Seq<char>)>,
                    Seq<char>,
                >(move_sequences_view(v@)),
                Err(e) => edge_runs_from(self@, operations@, 0) == Err::<
                    Seq<(Seq<NotationMove>, Seq<char>)>,
                    Seq<char>,
                >(e@),
            },
    {
        let ghost tb = self@;
        let ghost ops = operations@;
        let mut result: Vec<MoveSequence> = Vec::new();
        let mut i: usize = 0;
        assert(prefix_runs(move_sequences_view(result@), edge_runs_from(tb, ops, 0)) =~~= edge_runs_from(
            tb,
            ops,
            0,
        )) by {
            assert(move_sequences_view(result@) =~= Seq::empty());
            match edge_runs_from(tb, ops, 0) {
                Ok(v) => {
                    assert(Seq::<(Seq<NotationMove>, Seq<char>)>::empty() + v =~= v);
                },
                Err(_) => {},
            }
        }
        while i < operations.len()
            invariant
                i <= operations.len(),
                tb == self@,
                ops == operations@,
                edge_ops_stickered(ops),
                edge_runs_from(tb, ops, 0) == prefix_runs(move_sequences_view(result@), edge_runs_from(tb, ops, i as int)),
            decreases operations.len() - i,
        {
            let ghost pre = move_sequences_view(result@);
            if i + 1 < operations.len() {
                match (operations[i], operations[i + 1]) {
                    (EdgeOperation::Swap(a), EdgeOperation::Swap(b)) => {
                        assert(ops[i as int] == EdgeOperation::Swap(a));
                        assert(ops[i + 1] == EdgeOperation::Swap(b));
                        let ka = edge_sticker_string(a.target2, a.orientation);
                        let kb = edge_sticker_string(b.target2, b.orientation);
                        match OperationsToTurns::pair_run(&self.uf_expanded, ka, kb) {
                            Ok(Some(m)) => {
                                let ghost mv = m@;
                                result.push(m);
                                proof {
                                    assert(move_sequences_view(result@) =~= pre.push(mv));
                                    match edge_runs_from(tb, ops, i + 2) {
                                        Ok(v) => {
                                            assert(pre + (seq![mv] + v) =~= pre.push(mv) + v);
                                        },
                                        Err(_) => {},
                                    }
                                }
                                i = i + 2;
                                continue;
                            },
                            Ok(None) => {},
                            Err(e) => {
                                return Err(e);
                            },
                        }
                    },
                    _ => {},
                }
            }
            match operations[i] {
                EdgeOperation::Swap(a) => {
                    assert(ops[i as int] == EdgeOperation::Swap(a));
                },
                EdgeOperation::Flip(f) => {
                    assert(ops[i as int] == EdgeOperation::Flip(f));
                    let k = edge_sticker_string(f.target, 0);
                    match OperationsToTurns::single_run(
                        &self.uf_flip,
                        k,
                        "Flip: ",
                        "Flip move not found for target_sticker: ",
                    ) {
                        Ok(m) => {
                            let ghost mv = m@;
                            result.push(m);
                            proof {
                                assert(move_sequences_view(result@) =~= pre.push(mv));
                                match edge_runs_from(tb, ops, i + 1) {
                                    Ok(v) => {
                                        assert(pre + (seq![mv] + v) =~= pre.push(mv) + v);
                                    },
                                    Err(_) => {},
                                }
                            }
                        },
                        Err(e) => {
                            return Err(e);
                        },
                    }
                },
            }
            i = i + 1;
        }
        assert(move_sequences_view(result@) + Seq::<(Seq<NotationMove>, Seq<char>)>::empty() =~= move_sequences_view(result@));
        Ok(result)
    }
}

} // verus!
