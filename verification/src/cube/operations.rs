use vstd::prelude::*;
use super::state::{all_below, identity_seq, is_permutation, solved_view, zero_seq, State, StateView};
use crate::parser::move_parser::{chars_of, split_words, string_from_chars, words};
use crate::text::{empty_string, push_char};
use crate::parser::move_parser::{is_face_turn, lemma_move_text_injective, lemma_words_of_any_sequence_text, lemma_words_of_sequence_text, lemma_words_space_concat, written_words, move_text, sequence_text, spec_doubled, spec_reversed, spec_reversed_sequence, NotationMove};

verus! {

/// The layers that the model turns: faces U, D, R, L, F, B (0..=5) and the
/// slices M, S, E (6..=8).
pub open spec fn base_turn_view(layer: u8) -> StateView {
    if layer == 0 {
        StateView {
            cp: seq![3u8, 0, 1, 2, 4, 5, 6, 7],
            co: zero_seq(8),
            ep: seq![0u8, 1, 2, 3, 7, 4, 5, 6, 8, 9, 10, 11],
            eo: zero_seq(12),
        }
    } else if layer == 1 {
        StateView {
            cp: seq![0u8, 1, 2, 3, 5, 6, 7, 4],
            co: zero_seq(8),
            ep: seq![0u8, 1, 2, 3, 4, 5, 6, 7, 9, 10, 11, 8],
            eo: zero_seq(12),
        }
    } else if layer == 2 {
        StateView {
            cp: seq![0u8, 2, 6, 3, 4, 1, 5, 7],
            co: seq![0u8, 1, 2, 0, 0, 2, 1, 0],
            ep: seq![0u8, 5, 9, 3, 4, 2, 6, 7, 8, 1, 10, 11],
            eo: zero_seq(12),
        }
    } else if layer == 3 {
        StateView {
            cp: seq![4u8, 1, 2, 0, 7, 5, 6, 3],
            co: seq![2u8, 0, 0, 1, 1, 0, 0, 2],
            ep: seq![11u8, 1, 2, 7, 4, 5, 6, 0, 8, 9, 10, 3],
            eo: zero_seq(12),
        }
    } else if layer == 4 {
        StateView {
            cp: seq![0u8, 1, 3, 7, 4, 5, 2, 6],
            co: seq![0u8, 0, 1, 2, 0, 0, 2, 1],
            ep: seq![0u8, 1, 6, 10, 4, 5, 3, 7, 8, 9, 2, 11],
            eo: seq![0u8, 0, 1, 1, 0, 0, 1, 0, 0, 0, 1, 0],
        }
    } else if layer == 5 {
        StateView {
            cp: seq![1u8, 5, 2, 3, 0, 4, 6, 7],
            co: seq![1u8, 2, 0, 0, 2, 1, 0, 0],
            ep: seq![4u8, 8, 2, 3, 1, 5, 6, 7, 0, 9, 10, 11],
            eo: seq![1u8, 1, 0, 0, 1, 0, 0, 0, 1, 0, 0, 0],
        }
    } else if layer == 6 {
        StateView {
            cp: identity_seq(8),
            co: zero_seq(8),
            ep: seq![0u8, 1, 2, 3, 8, 5, 4, 7, 10, 9, 6, 11],
            eo: seq![0u8, 0, 0, 0, 1, 0, 1, 0, 1, 0, 1, 0],
        }
    } else if layer == 7 {
        StateView {
            cp: identity_seq(8),
            co: zero_seq(8),
            ep: seq![0u8, 1, 2, 3, 4, 7, 6, 11, 8, 5, 10, 9],
            eo: seq![0u8, 0, 0, 0, 0, 1, 0, 1, 0, 1, 0, 1],
        }
    } else {
        StateView {
            cp: identity_seq(8),
            co: zero_seq(8),
            ep: seq![1u8, 2, 3, 0, 4, 5, 6, 7, 8, 9, 10, 11],
            eo: zero_seq(12),
        }
    }
}

/// `s` with the quarter turn of `layer` applied `times` times.
pub open spec fn turn_times(s: StateView, layer: u8, times: nat) -> StateView
    decreases times,
{
    if times == 0 {
        s
    } else {
        turn_times(s, layer, (times - 1) as nat).followed_by(base_turn_view(layer))
    }
}

/// The quarter turns that make up a move, as (layer, count) pairs applied in order.
///
/// A wide turn is the face turn together with the parallel slice turned the same
/// way (`Uw` = `U E'`, `Dw` = `D E`, `Lw` = `L M`, `Rw` = `R M'`, `Fw` = `F S`,
/// `Bw` = `B S'`).
pub open spec fn move_steps(m: NotationMove) -> Seq<(u8, u8)> {
    match m {
        NotationMove::U => seq![(0u8, 1u8)],
        NotationMove::U2 => seq![(0u8, 2u8)],
        NotationMove::UPrime => seq![(0u8, 3u8)],
        NotationMove::D => seq![(1u8, 1u8)],
        NotationMove::D2 => seq![(1u8, 2u8)],
        NotationMove::DPrime => seq![(1u8, 3u8)],
        NotationMove::R => seq![(2u8, 1u8)],
        NotationMove::R2 => seq![(2u8, 2u8)],
        NotationMove::RPrime => seq![(2u8, 3u8)],
        NotationMove::L => seq![(3u8, 1u8)],
        NotationMove::L2 => seq![(3u8, 2u8)],
        NotationMove::LPrime => seq![(3u8, 3u8)],
        NotationMove::F => seq![(4u8, 1u8)],
        NotationMove::F2 => seq![(4u8, 2u8)],
        NotationMove::FPrime => seq![(4u8, 3u8)],
        NotationMove::B => seq![(5u8, 1u8)],
        NotationMove::B2 => seq![(5u8, 2u8)],
        NotationMove::BPrime => seq![(5u8, 3u8)],
        NotationMove::UWide => seq![(0u8, 1u8), (8u8, 3u8)],
        NotationMove::UWide2 => seq![(0u8, 2u8), (8u8, 2u8)],
        NotationMove::UWidePrime => seq![(0u8, 3u8), (8u8, 1u8)],
        NotationMove::DWide => seq![(1u8, 1u8), (8u8, 1u8)],
        NotationMove::DWide2 => seq![(1u8, 2u8), (8u8, 2u8)],
        NotationMove::DWidePrime => seq![(1u8, 3u8), (8u8, 3u8)],
        NotationMove::RWide => seq![(2u8, 1u8), (6u8, 3u8)],
        NotationMove::RWide2 => seq![(2u8, 2u8), (6u8, 2u8)],
        NotationMove::RWidePrime => seq![(2u8, 3u8), (6u8, 1u8)],
        NotationMove::LWide => seq![(3u8, 1u8), (6u8, 1u8)],
        NotationMove::LWide2 => seq![(3u8, 2u8), (6u8, 2u8)],
        NotationMove::LWidePrime => seq![(3u8, 3u8), (6u8, 3u8)],
        NotationMove::FWide => seq![(4u8, 1u8), (7u8, 1u8)],
        NotationMove::FWide2 => seq![(4u8, 2u8), (7u8, 2u8)],
        NotationMove::FWidePrime => seq![(4u8, 3u8), (7u8, 3u8)],
        NotationMove::BWide => seq![(5u8, 1u8), (7u8, 3u8)],
        NotationMove::BWide2 => seq![(5u8, 2u8), (7u8, 2u8)],
        NotationMove::BWidePrime => seq![(5u8, 3u8), (7u8, 1u8)],
        NotationMove::M => seq![(6u8, 1u8)],
        NotationMove::M2 => seq![(6u8, 2u8)],
        NotationMove::MPrime => seq![(6u8, 3u8)],
        NotationMove::S => seq![(7u8, 1u8)],
        NotationMove::S2 => seq![(7u8, 2u8)],
        NotationMove::SPrime => seq![(7u8, 3u8)],
        NotationMove::E => seq![(8u8, 1u8)],
        NotationMove::E2 => seq![(8u8, 2u8)],
        NotationMove::EPrime => seq![(8u8, 3u8)],
        NotationMove::Noop => Seq::empty(),
    }
}

/// Applies a list of (layer, count) steps in order.
pub open spec fn apply_steps(s: StateView, steps: Seq<(u8, u8)>) -> StateView
    decreases steps.len(),
{
    if steps.len() == 0 {
        s
    } else {
        turn_times(apply_steps(s, steps.drop_last()), steps.last().0, steps.last().1 as nat)
    }
}

/// The state after performing move `m` on `s`.
pub open spec fn apply_notation(s: StateView, m: NotationMove) -> StateView {
    apply_steps(s, move_steps(m))
}

/// The state after performing the moves of `ms` in order.
pub open spec fn apply_notation_seq(s: StateView, ms: Seq<NotationMove>) -> StateView
    decreases ms.len(),
{
    if ms.len() == 0 {
        s
    } else {
        apply_notation(apply_notation_seq(s, ms.drop_last()), ms.last())
    }
}

/// Orientation values small enough that adding any turn's twist or flip fits in a byte.
pub open spec fn fits_any_turn(s: StateView) -> bool {
    all_below(s.co, 254) && all_below(s.eo, 255)
}

proof fn lemma_base_turn_facts(layer: u8)
    requires
        layer < 9,
    ensures
        base_turn_view(layer).indices_in_range(),
        all_below(base_turn_view(layer).co, 3),
        all_below(base_turn_view(layer).eo, 2),
        base_turn_view(layer).cp.len() == 8,
        base_turn_view(layer).ep.len() == 12,
{
}

fn base_turn(layer: u8) -> (r: State)
    requires
        layer < 9,
    ensures
        r@ == base_turn_view(layer),
{
    let r = if layer == 0 {
        State::new([3, 0, 1, 2, 4, 5, 6, 7], [0; 8], [0, 1, 2, 3, 7, 4, 5, 6, 8, 9, 10, 11], [0; 12])
    } else if layer == 1 {
        State::new([0, 1, 2, 3, 5, 6, 7, 4], [0; 8], [0, 1, 2, 3, 4, 5, 6, 7, 9, 10, 11, 8], [0; 12])
    } else if layer == 2 {
        State::new(
            [0, 2, 6, 3, 4, 1, 5, 7],
            [0, 1, 2, 0, 0, 2, 1, 0],
            [0, 5, 9, 3, 4, 2, 6, 7, 8, 1, 10, 11],
            [0; 12],
        )
    } else if layer == 3 {
        State::new(
            [4, 1, 2, 0, 7, 5, 6, 3],
            [2, 0, 0, 1, 1, 0, 0, 2],
            [11, 1, 2, 7, 4, 5, 6, 0, 8, 9, 10, 3],
            [0; 12],
        )
    } else if layer == 4 {
        State::new(
            [0, 1, 3, 7, 4, 5, 2, 6],
            [0, 0, 1, 2, 0, 0, 2, 1],
            [0, 1, 6, 10, 4, 5, 3, 7, 8, 9, 2, 11],
            [0, 0, 1, 1, 0, 0, 1, 0, 0, 0, 1, 0],
        )
    } else if layer == 5 {
        State::new(
            [1, 5, 2, 3, 0, 4, 6, 7],
            [1, 2, 0, 0, 2, 1, 0, 0],
            [4, 8, 2, 3, 1, 5, 6, 7, 0, 9, 10, 11],
            [1, 1, 0, 0, 1, 0, 0, 0, 1, 0, 0, 0],
        )
    } else if layer == 6 {
        State::new(
            [0, 1, 2, 3, 4, 5, 6, 7],
            [0; 8],
            [0, 1, 2, 3, 8, 5, 4, 7, 10, 9, 6, 11],
            [0, 0, 0, 0, 1, 0, 1, 0, 1, 0, 1, 0],
        )
    } else if layer == 7 {
        State::new(
            [0, 1, 2, 3, 4, 5, 6, 7],
            [0; 8],
            [0, 1, 2, 3, 4, 7, 6, 11, 8, 5, 10, 9],
            [0, 0, 0, 0, 0, 1, 0, 1, 0, 1, 0, 1],
        )
    } else {
        State::new([0, 1, 2, 3, 4, 5, 6, 7], [0; 8], [1, 2, 3, 0, 4, 5, 6, 7, 8, 9, 10, 11], [0; 12])
    };
    assert(r@ =~= base_turn_view(layer));
    r
}

fn turn_layer(s: &State, layer: u8, times: u8) -> (r: State)
    requires
        layer < 9,
        fits_any_turn(s@),
    ensures
        r@ == turn_times(s@, layer, times as nat),
        times > 0 ==> r@.orientations_valid(),
        times == 0 ==> r == *s,
{
    let b = base_turn(layer);
    proof { lemma_base_turn_facts(layer); }
    let mut r = *s;
    let mut k: u8 = 0;
    while k < times
        invariant
            k <= times,
            layer < 9,
            b@ == base_turn_view(layer),
            r@ == turn_times(s@, layer, k as nat),
            k == 0 ==> r == *s,
            fits_any_turn(r@),
            k > 0 ==> r@.orientations_valid(),
        decreases times - k,
    {
        proof { lemma_base_turn_facts(layer); }
        r = r.apply_move(&b);
        k = k + 1;
    }
    r
}

fn steps_of(m: NotationMove) -> (r: Vec<(u8, u8)>)
    ensures
        r@ == move_steps(m),
{
    let r = match m {
        NotationMove::U => vec![(0u8, 1u8)],
        NotationMove::U2 => vec![(0u8, 2u8)],
        NotationMove::UPrime => vec![(0u8, 3u8)],
        NotationMove::D => vec![(1u8, 1u8)],
        NotationMove::D2 => vec![(1u8, 2u8)],
        NotationMove::DPrime => vec![(1u8, 3u8)],
        NotationMove::R => vec![(2u8, 1u8)],
        NotationMove::R2 => vec![(2u8, 2u8)],
        NotationMove::RPrime => vec![(2u8, 3u8)],
        NotationMove::L => vec![(3u8, 1u8)],
        NotationMove::L2 => vec![(3u8, 2u8)],
        NotationMove::LPrime => vec![(3u8, 3u8)],
        NotationMove::F => vec![(4u8, 1u8)],
        NotationMove::F2 => vec![(4u8, 2u8)],
        NotationMove::FPrime => vec![(4u8, 3u8)],
        NotationMove::B => vec![(5u8, 1u8)],
        NotationMove::B2 => vec![(5u8, 2u8)],
        NotationMove::BPrime => vec![(5u8, 3u8)],
        NotationMove::UWide => vec![(0u8, 1u8), (8u8, 3u8)],
        NotationMove::UWide2 => vec![(0u8, 2u8), (8u8, 2u8)],
        NotationMove::UWidePrime => vec![(0u8, 3u8), (8u8, 1u8)],
        NotationMove::DWide => vec![(1u8, 1u8), (8u8, 1u8)],
        NotationMove::DWide2 => vec![(1u8, 2u8), (8u8, 2u8)],
        NotationMove::DWidePrime => vec![(1u8, 3u8), (8u8, 3u8)],
        NotationMove::RWide => vec![(2u8, 1u8), (6u8, 3u8)],
        NotationMove::RWide2 => vec![(2u8, 2u8), (6u8, 2u8)],
        NotationMove::RWidePrime => vec![(2u8, 3u8), (6u8, 1u8)],
        NotationMove::LWide => vec![(3u8, 1u8), (6u8, 1u8)],
        NotationMove::LWide2 => vec![(3u8, 2u8), (6u8, 2u8)],
        NotationMove::LWidePrime => vec![(3u8, 3u8), (6u8, 3u8)],
        NotationMove::FWide => vec![(4u8, 1u8), (7u8, 1u8)],
        NotationMove::FWide2 => vec![(4u8, 2u8), (7u8, 2u8)],
        NotationMove::FWidePrime => vec![(4u8, 3u8), (7u8, 3u8)],
        NotationMove::BWide => vec![(5u8, 1u8), (7u8, 3u8)],
        NotationMove::BWide2 => vec![(5u8, 2u8), (7u8, 2u8)],
        NotationMove::BWidePrime => vec![(5u8, 3u8), (7u8, 1u8)],
        NotationMove::M => vec![(6u8, 1u8)],
        NotationMove::M2 => vec![(6u8, 2u8)],
        NotationMove::MPrime => vec![(6u8, 3u8)],
        NotationMove::S => vec![(7u8, 1u8)],
        NotationMove::S2 => vec![(7u8, 2u8)],
        NotationMove::SPrime => vec![(7u8, 3u8)],
        NotationMove::E => vec![(8u8, 1u8)],
        NotationMove::E2 => vec![(8u8, 2u8)],
        NotationMove::EPrime => vec![(8u8, 3u8)],
        NotationMove::Noop => Vec::new(),
    };
    assert(r@ =~= move_steps(m));
    r
}

/// Performs one move on a state; `Noop` leaves the state as it is.
pub fn apply_notation_move(state: &State, mv: &NotationMove) -> (r: State)
    requires
        fits_any_turn(state@),
    ensures
        r@ == apply_notation(state@, *mv),
        *mv == NotationMove::Noop ==> r == *state,
        *mv != NotationMove::Noop ==> r@.orientations_valid(),
{
    let steps = steps_of(*mv);
    let mut r = *state;
    let mut i: usize = 0;
    while i < steps.len()
        invariant
            i <= steps.len(),
            steps@ == move_steps(*mv),
            forall|k: int| 0 <= k < steps.len() ==> (#[trigger] steps@[k]).0 < 9 && steps@[k].1 > 0,
            r@ == apply_steps(state@, steps@.take(i as int)),
            i == 0 ==> r == *state,
            i > 0 ==> r@.orientations_valid(),
            fits_any_turn(r@),
        decreases steps.len() - i,
    {
        assert(steps@.take(i + 1).drop_last() =~= steps@.take(i as int));
        let (layer, times) = steps[i];
        r = turn_layer(&r, layer, times);
        i = i + 1;
    }
    assert(steps@.take(steps.len() as int) =~= steps@);
    r
}

/// Performs the moves of a sequence in order.
pub fn apply_notation_sequence(state: &State, moves: &Vec<NotationMove>) -> (r: State)
    requires
        fits_any_turn(state@),
    ensures
        r@ == apply_notation_seq(state@, moves@),
        fits_any_turn(r@),
{
    let mut r = *state;
    let mut i: usize = 0;
    while i < moves.len()
        invariant
            i <= moves.len(),
            r@ == apply_notation_seq(state@, moves@.take(i as int)),
            fits_any_turn(r@),
        decreases moves.len() - i,
    {
        assert(moves@.take(i + 1).drop_last() =~= moves@.take(i as int));
        r = apply_notation_move(&r, &moves[i]);
        i = i + 1;
    }
    assert(moves@.take(moves.len() as int) =~= moves@);
    r
}

} // verus!

verus! {

/// The face letters in alphabetical order with their layer numbers.
pub open spec fn sorted_face(k: int) -> (char, u8) {
    if k == 0 { ('B', 5u8) }
    else if k == 1 { ('D', 1u8) }
    else if k == 2 { ('F', 4u8) }
    else if k == 3 { ('L', 3u8) }
    else if k == 4 { ('R', 2u8) }
    else { ('U', 0u8) }
}

/// The 18 face moves of the cube, sorted by name: for each face (B, D, F, L, R, U)
/// the quarter turn `X`, the inverse `X'` and the half turn `X2`, each given as
/// the state it produces from the solved cube.
pub open spec fn cube_table() -> Seq<(Seq<char>, StateView)> {
    Seq::new(18, |i: int| {
        let (face, layer) = sorted_face(i / 3);
        let k = i % 3;
        if k == 0 {
            (seq![face], turn_times(solved_view(), layer, 1))
        } else if k == 1 {
            (seq![face, '\''], turn_times(solved_view(), layer, 3))
        } else {
            (seq![face, '2'], turn_times(solved_view(), layer, 2))
        }
    })
}

/// The state of the first table entry named `name`, if any.
pub open spec fn table_lookup(table: Seq<(Seq<char>, StateView)>, name: Seq<char>) -> Option<StateView>
    decreases table.len(),
{
    if table.len() == 0 {
        None
    } else if table[0].0 == name {
        Some(table[0].1)
    } else {
        table_lookup(table.drop_first(), name)
    }
}

/// Applies the words of a scramble in order, skipping words that name no move.
pub open spec fn scramble_result(s: StateView, ws: Seq<Seq<char>>) -> StateView
    decreases ws.len(),
{
    if ws.len() == 0 {
        s
    } else {
        let prev = scramble_result(s, ws.drop_last());
        match table_lookup(cube_table(), ws.last()) {
            Some(m) => prev.followed_by(m),
            None => prev,
        }
    }
}

/// The face moves of the cube, by name.
pub struct RubiksCube {
    moves: Vec<(String, State)>,
}

impl RubiksCube {
    /// The table of moves with their names, in order.
    pub closed spec fn table(&self) -> Seq<(Seq<char>, StateView)> {
        self.moves@.map_values(|e: (String, State)| (e.0@, e.1@))
    }

    pub closed spec fn wf(&self) -> bool {
        self.table() == cube_table()
    }

    pub fn new() -> (c: Self)
        ensures
            c.wf(),
            c.table() == cube_table(),
    {
        let faces: [(char, u8); 6] = [('B', 5), ('D', 1), ('F', 4), ('L', 3), ('R', 2), ('U', 0)];
        let solved = State::solved();
        let mut moves: Vec<(String, State)> = Vec::new();
        let mut f: usize = 0;
        while f < 6
            invariant
                f <= 6,
                solved@ == solved_view(),
                forall|k: int| 0 <= k < 6 ==> #[trigger] faces[k] == sorted_face(k),
                moves@.map_values(|e: (String, State)| (e.0@, e.1@)) == cube_table().take(3 * f),
            decreases 6 - f,
        {
            let (face, layer) = faces[f];
            assert(faces[f as int] == sorted_face(f as int));
            let mut n1 = empty_string();
            push_char(&mut n1, face);
            let mut n2 = empty_string();
            push_char(&mut n2, face);
            push_char(&mut n2, '\'');
            let mut n3 = empty_string();
            push_char(&mut n3, face);
            push_char(&mut n3, '2');
            let s1 = turn_layer(&solved, layer, 1);
            let s2 = turn_layer(&solved, layer, 3);
            let s3 = turn_layer(&solved, layer, 2);
            let ghost prev = moves@.map_values(|e: (String, State)| (e.0@, e.1@));
            moves.push((n1, s1));
            moves.push((n2, s2));
            moves.push((n3, s3));
            proof {
                let fi = f as int;
                assert((3 * fi) / 3 == fi && (3 * fi) % 3 == 0) by (nonlinear_arith);
                assert((3 * fi + 1) / 3 == fi && (3 * fi + 1) % 3 == 1) by (nonlinear_arith);
                assert((3 * fi + 2) / 3 == fi && (3 * fi + 2) % 3 == 2) by (nonlinear_arith);
                assert(n1@ =~= seq![face]);
                assert(n2@ =~= seq![face, '\'']);
                assert(n3@ =~= seq![face, '2']);
                assert(cube_table()[3 * fi] == (n1@, s1@));
                assert(cube_table()[3 * fi + 1] == (n2@, s2@));
                assert(cube_table()[3 * fi + 2] == (n3@, s3@));
                assert(moves@.map_values(|e: (String, State)| (e.0@, e.1@)) =~= prev.push(
                    cube_table()[3 * f],
                ).push(cube_table()[3 * f + 1]).push(cube_table()[3 * f + 2]));
                assert(cube_table().take(3 * f + 3) =~= cube_table().take(3 * f).push(
                    cube_table()[3 * f],
                ).push(cube_table()[3 * f + 1]).push(cube_table()[3 * f + 2]));
            }
            f = f + 1;
        }
        assert(cube_table().take(18) =~= cube_table());
        RubiksCube { moves }
    }

    /// The names of all moves in alphabetical order.
    pub fn get_move_names(&self) -> (names: Vec<String>)
        requires
            self.wf(),
        ensures
            names@.map_values(|n: String| n@) == cube_table().map_values(
                |e: (Seq<char>, StateView)| e.0,
            ),
    {
        let mut names: Vec<String> = Vec::new();
        let mut i: usize = 0;
        while i < self.moves.len()
            invariant
                i <= self.moves.len(),
                self.table() == cube_table(),
                names@.map_values(|n: String| n@) == self.table().take(i as int).map_values(
                    |e: (Seq<char>, StateView)| e.0,
                ),
            decreases self.moves.len() - i,
        {
            let ghost prev = names@.map_values(|n: String| n@);
            names.push(self.moves[i].0.clone());
            proof {
                assert(names@.map_values(|n: String| n@) =~= prev.push(self.table()[i as int].0));
                assert(self.table().take(i + 1).map_values(|e: (Seq<char>, StateView)| e.0)
                    =~= self.table().take(i as int).map_values(|e: (Seq<char>, StateView)| e.0).push(
                    self.table()[i as int].0,
                ));
            }
            i = i + 1;
        }
        assert(self.table().take(self.moves.len() as int) =~= self.table());
        names
    }

    fn lookup_chars(&self, name: &Vec<char>) -> (r: Option<State>)
        requires
            self.wf(),
        ensures
            match r {
                Some(m) => table_lookup(cube_table(), name@) == Some(m@) && m@.indices_in_range()
                    && m@.orientations_valid(),
                None => table_lookup(cube_table(), name@) is None,
            },
    {
        let key = string_from_chars(name);
        assert(cube_table().skip(0) =~= cube_table());
        let mut i: usize = 0;
        while i < self.moves.len()
            invariant
                i <= self.moves.len(),
                self.table() == cube_table(),
                key@ == name@,
                table_lookup(cube_table(), name@) == table_lookup(cube_table().skip(i as int), name@),
            decreases self.moves.len() - i,
        {
            proof {
                assert(cube_table().skip(i as int).drop_first() =~= cube_table().skip(i + 1));
                assert(cube_table().skip(i as int)[0] == cube_table()[i as int]);
            }
            if self.moves[i].0 == key {
                let m = self.moves[i].1;
                proof {
                    assert(self.table()[i as int] == cube_table()[i as int]);
                    lemma_table_entry_facts(i as int);
                }
                return Some(m);
            }
            i = i + 1;
        }
        assert(cube_table().skip(18).len() == 0);
        None
    }

    /// The state after performing the named move on `state`, or `None` when no
    /// move has that name.
    pub fn apply_move(&self, state: &State, move_name: &str) -> (r: Option<State>)
        requires
            self.wf(),
            fits_any_turn(state@),
        ensures
            match table_lookup(cube_table(), move_name@) {
                Some(m) => r matches Some(x) && x@ == state@.followed_by(m),
                None => r is None,
            },
    {
        let chars = chars_of(move_name);
        match self.lookup_chars(&chars) {
            Some(m) => Some(state.apply_move(&m)),
            None => None,
        }
    }

    /// The state after performing, from the solved cube, each whitespace-separated
    /// word of the scramble that names a move; other words are skipped.
    pub fn scramble_to_state(&self, scramble: &str) -> (s: State)
        requires
            self.wf(),
        ensures
            s@ == scramble_result(solved_view(), words(scramble@)),
            s@.orientations_valid(),
    {
        let chars = chars_of(scramble);
        let ws = split_words(&chars);
        let ghost wv = ws@.map_values(|w: Vec<char>| w@);
        let mut s = State::solved();
        let mut i: usize = 0;
        while i < ws.len()
            invariant
                i <= ws.len(),
                self.wf(),
                wv == ws@.map_values(|w: Vec<char>| w@),
                s@ == scramble_result(solved_view(), wv.take(i as int)),
                s@.orientations_valid(),
            decreases ws.len() - i,
        {
            assert(wv.take(i + 1).drop_last() =~= wv.take(i as int));
            match self.lookup_chars(&ws[i]) {
                Some(m) => {
                    s = s.apply_move(&m);
                },
                None => {},
            }
            i = i + 1;
        }
        assert(wv.take(ws.len() as int) =~= wv);
        s
    }

    /// The whitespace-separated words of the scramble that name no move, in order.
    pub fn unknown_moves(&self, scramble: &str) -> (unknown: Vec<String>)
        requires
            self.wf(),
        ensures
            unknown@.map_values(|u: String| u@) == words(scramble@).filter(
                |w: Seq<char>| table_lookup(cube_table(), w) is None,
            ),
    {
        let chars = chars_of(scramble);
        let ws = split_words(&chars);
        let ghost wv = ws@.map_values(|w: Vec<char>| w@);
        let ghost pred = |w: Seq<char>| table_lookup(cube_table(), w) is None;
        let mut unknown: Vec<String> = Vec::new();
        let mut i: usize = 0;
        while i < ws.len()
            invariant
                i <= ws.len(),
                self.wf(),
                wv == ws@.map_values(|w: Vec<char>| w@),
                pred == (|w: Seq<char>| table_lookup(cube_table(), w) is None),
                unknown@.map_values(|u: String| u@) == wv.take(i as int).filter(pred),
            decreases ws.len() - i,
        {
            proof {
                reveal_with_fuel(Seq::filter, 1);
                assert(wv.take(i + 1).drop_last() =~= wv.take(i as int));
            }
            let ghost prev = unknown@.map_values(|u: String| u@);
            match self.lookup_chars(&ws[i]) {
                Some(_) => {},
                None => {
                    unknown.push(string_from_chars(&ws[i]));
                    assert(unknown@.map_values(|u: String| u@) =~= prev.push(wv[i as int]));
                },
            }
            i = i + 1;
        }
        assert(wv.take(ws.len() as int) =~= wv);
        unknown
    }
}

proof fn lemma_turn_times_valid(layer: u8, k: nat)
    requires
        layer < 9,
        k > 0,
    ensures
        turn_times(solved_view(), layer, k).orientations_valid(),
        turn_times(solved_view(), layer, k).indices_in_range(),
    decreases k,
{
    if k > 1 {
        lemma_turn_times_valid(layer, (k - 1) as nat);
    }
    let prev = turn_times(solved_view(), layer, (k - 1) as nat);
    let b = base_turn_view(layer);
    assert(prev.indices_in_range());
    assert forall|i: int| 0 <= i < 8 implies #[trigger] prev.followed_by(b).cp[i] < 8 by {
        assert(b.cp[i] < 8);
    }
    assert forall|i: int| 0 <= i < 12 implies #[trigger] prev.followed_by(b).ep[i] < 12 by {
        assert(b.ep[i] < 12);
    }
}

proof fn lemma_table_entry_facts(i: int)
    requires
        0 <= i < 18,
    ensures
        cube_table()[i].1.indices_in_range(),
        cube_table()[i].1.orientations_valid(),
{
    let (face, layer) = sorted_face(i / 3);
    let k = i % 3;
    if k == 0 {
        lemma_turn_times_valid(layer, 1);
    } else if k == 1 {
        lemma_turn_times_valid(layer, 3);
    } else {
        lemma_turn_times_valid(layer, 2);
    }
}

impl Default for RubiksCube {
    fn default() -> (c: Self)
        ensures
            c.wf(),
    {
        Self::new()
    }
}

} // verus!

verus! {

/// The view has the sizes of a cube state: 8 corners and 12 edges.
pub open spec fn shaped(s: StateView) -> bool {
    s.cp.len() == 8 && s.co.len() == 8 && s.ep.len() == 12 && s.eo.len() == 12
}

/// Turning a layer `a` times and then `b` times is turning it `a + b` times.
proof fn lemma_turn_times_add(x: StateView, layer: u8, a: nat, b: nat)
    ensures
        turn_times(turn_times(x, layer, a), layer, b) == turn_times(x, layer, a + b),
    decreases b,
{
    if b > 0 {
        lemma_turn_times_add(x, layer, a, (b - 1) as nat);
    }
}

/// Four quarter turns of a layer give back the state.
#[verifier::spinoff_prover]
#[verifier::rlimit(100)]
proof fn lemma_four_turns(y: StateView, layer: u8)
    requires
        layer < 9,
        shaped(y),
        y.orientations_valid(),
    ensures
        turn_times(y, layer, 4) == y,
{
    reveal_with_fuel(turn_times, 5);
    let b = base_turn_view(layer);
    let y4 = y.followed_by(b).followed_by(b).followed_by(b).followed_by(b);
    if layer == 0 {
        assert(y4 =~= y);
    } else if layer == 1 {
        assert(y4 =~= y);
    } else if layer == 2 {
        assert(y4 =~= y);
    } else if layer == 3 {
        assert(y4 =~= y);
    } else if layer == 4 {
        assert(y4 =~= y);
    } else if layer == 5 {
        assert(y4 =~= y);
    } else if layer == 6 {
        assert(y4 =~= y);
    } else if layer == 7 {
        assert(y4 =~= y);
    } else {
        assert(y4 =~= y);
    }
}

/// The face layers and the slice layers that wide moves turn together.
pub open spec fn wide_pair(face: u8, slice: u8) -> bool {
    ||| face == 0 && slice == 8
    ||| face == 1 && slice == 8
    ||| face == 2 && slice == 6
    ||| face == 3 && slice == 6
    ||| face == 4 && slice == 7
    ||| face == 5 && slice == 7
}

/// A face turn and the parallel slice turn commute.
#[verifier::spinoff_prover]
#[verifier::rlimit(100)]
proof fn lemma_quarter_turns_commute(y: StateView, face: u8, slice: u8)
    requires
        wide_pair(face, slice),
    ensures
        y.followed_by(base_turn_view(slice)).followed_by(base_turn_view(face)) == y.followed_by(
            base_turn_view(face),
        ).followed_by(base_turn_view(slice)),
{
    let f = base_turn_view(face);
    let s = base_turn_view(slice);
    if face == 0 {
        assert(y.followed_by(s).followed_by(f) =~= y.followed_by(f).followed_by(s));
    } else if face == 1 {
        assert(y.followed_by(s).followed_by(f) =~= y.followed_by(f).followed_by(s));
    } else if face == 2 {
        assert(y.followed_by(s).followed_by(f) =~= y.followed_by(f).followed_by(s));
    } else if face == 3 {
        assert(y.followed_by(s).followed_by(f) =~= y.followed_by(f).followed_by(s));
    } else if face == 4 {
        assert(y.followed_by(s).followed_by(f) =~= y.followed_by(f).followed_by(s));
    } else {
        assert(y.followed_by(s).followed_by(f) =~= y.followed_by(f).followed_by(s));
    }
}

proof fn lemma_face_turns_pass_slice_turn(y: StateView, face: u8, slice: u8, c: nat)
    requires
        wide_pair(face, slice),
    ensures
        turn_times(y.followed_by(base_turn_view(slice)), face, c) == turn_times(y, face, c).followed_by(
            base_turn_view(slice),
        ),
    decreases c,
{
    if c > 0 {
        lemma_face_turns_pass_slice_turn(y, face, slice, (c - 1) as nat);
        lemma_quarter_turns_commute(turn_times(y, face, (c - 1) as nat), face, slice);
    }
}

/// Turning a slice and then its face is turning the face and then the slice.
proof fn lemma_wide_turns_commute(y: StateView, face: u8, slice: u8, b: nat, c: nat)
    requires
        wide_pair(face, slice),
    ensures
        turn_times(turn_times(y, slice, b), face, c) == turn_times(turn_times(y, face, c), slice, b),
    decreases b,
{
    if b > 0 {
        lemma_face_turns_pass_slice_turn(turn_times(y, slice, (b - 1) as nat), face, slice, c);
        lemma_wide_turns_commute(y, face, slice, (b - 1) as nat, c);
    }
}

/// The steps of the reversed move undo those of the move: the same layers,
/// each turned the remaining number of quarter turns.
proof fn lemma_reversed_steps(m: NotationMove)
    ensures
        move_steps(m).len() <= 2,
        move_steps(spec_reversed(m)).len() == move_steps(m).len(),
        move_steps(m).len() == 1 ==> {
            let (l, t) = move_steps(m)[0];
            &&& l < 9
            &&& 1 <= t <= 3
            &&& move_steps(spec_reversed(m))[0] == (l, (4 - t) as u8)
        },
        move_steps(m).len() == 2 ==> {
            let (f, a) = move_steps(m)[0];
            let (s, b) = move_steps(m)[1];
            &&& wide_pair(f, s)
            &&& 1 <= a <= 3
            &&& 1 <= b <= 3
            &&& move_steps(spec_reversed(m))[0] == (f, (4 - a) as u8)
            &&& move_steps(spec_reversed(m))[1] == (s, (4 - b) as u8)
        },
{
}

/// Performing a move and then its reverse gives back the state.
pub proof fn lemma_move_then_reversed(s: StateView, m: NotationMove)
    requires
        shaped(s),
        s.orientations_valid(),
    ensures
        apply_notation(apply_notation(s, m), spec_reversed(m)) == s,
{
    reveal_with_fuel(apply_steps, 3);
    lemma_reversed_steps(m);
    let st = move_steps(m);
    let rt = move_steps(spec_reversed(m));
    if st.len() == 1 {
        let (l, t) = st[0];
        assert(apply_notation(s, m) == turn_times(s, l, t as nat));
        assert(apply_notation(turn_times(s, l, t as nat), spec_reversed(m)) == turn_times(
            turn_times(s, l, t as nat),
            l,
            (4 - t) as nat,
        ));
        lemma_turn_times_add(s, l, t as nat, (4 - t) as nat);
        lemma_four_turns(s, l);
    } else if st.len() == 2 {
        let (f, a) = st[0];
        let (sl, b) = st[1];
        let x = turn_times(turn_times(s, f, a as nat), sl, b as nat);
        assert(apply_notation(s, m) == x);
        assert(apply_notation(x, spec_reversed(m)) == turn_times(turn_times(x, f, (4 - a) as nat), sl, (4 - b) as nat));
        lemma_wide_turns_commute(turn_times(s, f, a as nat), f, sl, b as nat, (4 - a) as nat);
        lemma_turn_times_add(s, f, a as nat, (4 - a) as nat);
        lemma_four_turns(s, f);
        lemma_turn_times_add(s, sl, b as nat, (4 - b) as nat);
        lemma_four_turns(s, sl);
    }
}

/// Turning keeps a state shaped with orientations in range.
proof fn lemma_turn_times_keeps_valid(x: StateView, layer: u8, t: nat)
    requires
        shaped(x),
        x.orientations_valid(),
    ensures
        shaped(turn_times(x, layer, t)),
        turn_times(x, layer, t).orientations_valid(),
    decreases t,
{
    if t > 0 {
        lemma_turn_times_keeps_valid(x, layer, (t - 1) as nat);
    }
}

proof fn lemma_apply_steps_keeps_valid(x: StateView, steps: Seq<(u8, u8)>)
    requires
        shaped(x),
        x.orientations_valid(),
    ensures
        shaped(apply_steps(x, steps)),
        apply_steps(x, steps).orientations_valid(),
    decreases steps.len(),
{
    if steps.len() > 0 {
        lemma_apply_steps_keeps_valid(x, steps.drop_last());
        lemma_turn_times_keeps_valid(apply_steps(x, steps.drop_last()), steps.last().0, steps.last().1 as nat);
    }
}

/// Performing moves keeps a state shaped with orientations in range.
pub proof fn lemma_notation_seq_keeps_valid(x: StateView, ms: Seq<NotationMove>)
    requires
        shaped(x),
        x.orientations_valid(),
    ensures
        shaped(apply_notation_seq(x, ms)),
        apply_notation_seq(x, ms).orientations_valid(),
    decreases ms.len(),
{
    if ms.len() > 0 {
        lemma_notation_seq_keeps_valid(x, ms.drop_last());
        lemma_apply_steps_keeps_valid(apply_notation_seq(x, ms.drop_last()), move_steps(ms.last()));
    }
}

/// Performing `a + b` is performing `a` and then `b`.
pub proof fn lemma_notation_seq_append(x: StateView, a: Seq<NotationMove>, b: Seq<NotationMove>)
    ensures
        apply_notation_seq(x, a + b) == apply_notation_seq(apply_notation_seq(x, a), b),
    decreases b.len(),
{
    if b.len() > 0 {
        assert((a + b).drop_last() =~= a + b.drop_last());
        lemma_notation_seq_append(x, a, b.drop_last());
    }
}

/// Performing a sequence of moves and then its reversed sequence gives back the state.
pub proof fn lemma_sequence_then_reversed(s: StateView, ms: Seq<NotationMove>)
    requires
        shaped(s),
        s.orientations_valid(),
    ensures
        apply_notation_seq(apply_notation_seq(s, ms), spec_reversed_sequence(ms)) == s,
    decreases ms.len(),
{
    if ms.len() > 0 {
        let init = ms.drop_last();
        let last = ms.last();
        let mid = apply_notation_seq(s, init);
        assert(spec_reversed_sequence(ms) =~= seq![spec_reversed(last)] + spec_reversed_sequence(init));
        lemma_notation_seq_append(apply_notation_seq(s, ms), seq![spec_reversed(last)], spec_reversed_sequence(init));
        let x = apply_notation_seq(s, ms);
        let one = seq![spec_reversed(last)];
        assert(one.drop_last() =~= Seq::<NotationMove>::empty());
        assert(apply_notation_seq(x, one.drop_last()) == x);
        assert(one.last() == spec_reversed(last));
        assert(apply_notation_seq(x, one) == apply_notation(x, spec_reversed(last)));
        assert(x == apply_notation(mid, last));
        lemma_notation_seq_keeps_valid(s, init);
        lemma_move_then_reversed(mid, last);
        lemma_sequence_then_reversed(s, init);
    }
}

/// Composing with a state is associative: following `a` and then `b` is
/// following their composition.
pub proof fn lemma_followed_by_assoc(s: StateView, a: StateView, b: StateView)
    requires
        b.indices_in_range(),
        b.cp.len() == 8,
        b.ep.len() == 12,
    ensures
        s.followed_by(a).followed_by(b) == s.followed_by(a.followed_by(b)),
{
    let l = s.followed_by(a).followed_by(b);
    let r = s.followed_by(a.followed_by(b));
    assert forall|i: int| 0 <= i < 8 implies #[trigger] l.co[i] == r.co[i] by {
        let p = b.cp[i] as int;
        assert(0 <= p < 8);
        let x = s.co[a.cp[p] as int] as int;
        let y = a.co[p] as int;
        let z = b.co[i] as int;
        assert(((x + y) % 3 + z) % 3 == (x + (y + z) % 3) % 3) by (nonlinear_arith)
            requires
                x >= 0,
                y >= 0,
                z >= 0,
        ;
    }
    assert forall|i: int| 0 <= i < 12 implies #[trigger] l.eo[i] == r.eo[i] by {
        let p = b.ep[i] as int;
        assert(0 <= p < 12);
        let x = s.eo[a.ep[p] as int] as int;
        let y = a.eo[p] as int;
        let z = b.eo[i] as int;
        assert(((x + y) % 2 + z) % 2 == (x + (y + z) % 2) % 2) by (nonlinear_arith)
            requires
                x >= 0,
                y >= 0,
                z >= 0,
        ;
    }
    assert forall|i: int| 0 <= i < 8 implies #[trigger] l.cp[i] == r.cp[i] by {
        assert(0 <= b.cp[i] < 8);
    }
    assert forall|i: int| 0 <= i < 12 implies #[trigger] l.ep[i] == r.ep[i] by {
        assert(0 <= b.ep[i] < 12);
    }
    assert(l =~= r);
}

/// Following the solved cube changes nothing.
pub proof fn lemma_followed_by_solved(s: StateView)
    requires
        shaped(s),
        s.orientations_valid(),
    ensures
        s.followed_by(solved_view()) == s,
{
    assert(s.followed_by(solved_view()) =~= s);
}

/// Turning a layer `t` times is following the state that those turns make from the solved cube.
proof fn lemma_turn_times_is_following(s: StateView, layer: u8, t: nat)
    requires
        layer < 9,
        shaped(s),
        s.orientations_valid(),
    ensures
        turn_times(s, layer, t) == s.followed_by(turn_times(solved_view(), layer, t)),
    decreases t,
{
    if t == 0 {
        lemma_followed_by_solved(s);
    } else {
        lemma_turn_times_is_following(s, layer, (t - 1) as nat);
        lemma_base_turn_facts(layer);
        lemma_followed_by_assoc(s, turn_times(solved_view(), layer, (t - 1) as nat), base_turn_view(layer));
    }
}

/// The move named `name` in the cube's table.
pub open spec fn named_move(name: Seq<char>) -> Option<StateView> {
    table_lookup(cube_table(), name)
}

/// A face move (`U`, `D2`, `R'`, ...): a single layer among the six faces.
pub open spec fn is_face_move(m: NotationMove) -> bool {
    move_steps(m).len() == 1 && move_steps(m)[0].0 < 6
}

/// Where a face move stands in the cube's table.
spec fn table_slot(m: NotationMove) -> int {
    match m {
        NotationMove::B => 0,
        NotationMove::BPrime => 1,
        NotationMove::B2 => 2,
        NotationMove::D => 3,
        NotationMove::DPrime => 4,
        NotationMove::D2 => 5,
        NotationMove::F => 6,
        NotationMove::FPrime => 7,
        NotationMove::F2 => 8,
        NotationMove::L => 9,
        NotationMove::LPrime => 10,
        NotationMove::L2 => 11,
        NotationMove::R => 12,
        NotationMove::RPrime => 13,
        NotationMove::R2 => 14,
        NotationMove::U => 15,
        NotationMove::UPrime => 16,
        NotationMove::U2 => 17,
        _ => 0,
    }
}

/// A lookup finds the entry at `k` when it is the only one with that name.
proof fn lemma_lookup_unique(t: Seq<(Seq<char>, StateView)>, name: Seq<char>, k: int)
    requires
        0 <= k < t.len(),
        t[k].0 == name,
        forall|j: int| 0 <= j < k ==> #[trigger] t[j].0 != name,
    ensures
        table_lookup(t, name) == Some(t[k].1),
    decreases k,
{
    if k > 0 {
        assert forall|j: int| 0 <= j < k - 1 implies #[trigger] t.drop_first()[j].0 != name by {
            assert(t.drop_first()[j] == t[j + 1]);
        }
        lemma_lookup_unique(t.drop_first(), name, k - 1);
    }
}

/// The names in the cube's table are distinct.
proof fn lemma_table_names_distinct()
    ensures
        forall|i: int, j: int| 0 <= i < 18 && 0 <= j < 18 && i != j ==> #[trigger] cube_table()[i].0 != #[trigger] cube_table()[j].0,
{
    let t = cube_table();
    assert forall|i: int, j: int| 0 <= i < 18 && 0 <= j < 18 && i != j implies #[trigger] t[i].0 != #[trigger] t[j].0 by {
        let a = t[i].0;
        let b = t[j].0;
        if i / 3 != j / 3 {
            assert(a[0] == sorted_face(i / 3).0);
            assert(b[0] == sorted_face(j / 3).0);
            assert(a[0] != b[0]);
        } else if i % 3 == 0 || j % 3 == 0 {
            assert(a.len() != b.len());
        } else {
            assert(a[1] != b[1]);
        }
    }
}

proof fn lemma_face_move_named(m: NotationMove)
    requires
        is_face_move(m),
    ensures
        named_move(move_text(m)) == Some(turn_times(solved_view(), move_steps(m)[0].0, move_steps(m)[0].1 as nat)),
{
    let t = cube_table();
    let k = table_slot(m);
    assert(0 <= k < 18);
    assert(t[k].0 =~= move_text(m));
    assert(t[k].1 == turn_times(solved_view(), move_steps(m)[0].0, move_steps(m)[0].1 as nat));
    lemma_table_names_distinct();
    assert forall|j: int| 0 <= j < k implies #[trigger] t[j].0 != move_text(m) by {
        assert(t[j].0 != t[k].0);
    }
    lemma_lookup_unique(t, move_text(m), k);
}

/// The cube's named face moves and the notation moves of the same name turn
/// the cube alike.
pub proof fn lemma_named_face_moves_agree(s: StateView, m: NotationMove)
    requires
        shaped(s),
        s.orientations_valid(),
        is_face_move(m),
    ensures
        named_move(move_text(m)) is Some,
        s.followed_by(named_move(move_text(m))->0) == apply_notation(s, m),
{
    lemma_face_move_named(m);
    let (l, t) = move_steps(m)[0];
    lemma_turn_times_is_following(s, l, t as nat);
    reveal_with_fuel(apply_steps, 2);
    assert(move_steps(m).drop_last() =~= Seq::<(u8, u8)>::empty());
}

/// The solved cube followed by a move is that move.
pub proof fn lemma_solved_followed_by(a: StateView)
    requires
        shaped(a),
        a.indices_in_range(),
        a.orientations_valid(),
    ensures
        solved_view().followed_by(a) == a,
{
    assert(solved_view().followed_by(a) =~= a);
}

/// Composing two valid states gives a valid state.
pub proof fn lemma_followed_by_keeps_valid(a: StateView, b: StateView)
    requires
        shaped(a),
        shaped(b),
        a.is_valid(),
        b.is_valid(),
    ensures
        shaped(a.followed_by(b)),
        a.followed_by(b).is_valid(),
{
    let c = a.followed_by(b);
    assert forall|i: int| 0 <= i < 8 implies #[trigger] c.cp[i] < 8 by {
        assert(b.cp[i] < 8);
    }
    assert forall|i: int, j: int| 0 <= i < 8 && 0 <= j < 8 && i != j implies #[trigger] c.cp[i] != #[trigger] c.cp[j] by {
        assert(b.cp[i] != b.cp[j]);
        assert(b.cp[i] < 8 && b.cp[j] < 8);
    }
    assert forall|i: int| 0 <= i < 12 implies #[trigger] c.ep[i] < 12 by {
        assert(b.ep[i] < 12);
    }
    assert forall|i: int, j: int| 0 <= i < 12 && 0 <= j < 12 && i != j implies #[trigger] c.ep[i] != #[trigger] c.ep[j] by {
        assert(b.ep[i] != b.ep[j]);
        assert(b.ep[i] < 12 && b.ep[j] < 12);
    }
}

/// The quarter turns of the six faces.
pub open spec fn is_quarter_face_turn(m: NotationMove) -> bool {
    ||| m == NotationMove::U
    ||| m == NotationMove::D
    ||| m == NotationMove::R
    ||| m == NotationMove::L
    ||| m == NotationMove::F
    ||| m == NotationMove::B
}

/// For the cube's named face moves: four quarter turns give back the state,
/// the half turn is the quarter turn twice, the inverse turn is the quarter
/// turn three times, and a quarter turn changes every valid state.
pub proof fn lemma_named_quarter_turn_powers(s: StateView, m: NotationMove)
    requires
        shaped(s),
        s.orientations_valid(),
        is_quarter_face_turn(m),
    ensures
        named_move(move_text(m)) is Some,
        named_move(move_text(spec_doubled(m))) is Some,
        named_move(move_text(spec_reversed(m))) is Some,
        ({
            let q = named_move(move_text(m))->0;
            &&& s.followed_by(q).followed_by(q).followed_by(q).followed_by(q) == s
            &&& s.followed_by(named_move(move_text(spec_doubled(m)))->0) == s.followed_by(q).followed_by(q)
            &&& s.followed_by(named_move(move_text(spec_reversed(m)))->0) == s.followed_by(q).followed_by(q).followed_by(q)
            &&& (is_permutation(s.cp) ==> s.followed_by(q) != s)
        }),
{
    let l = move_steps(m)[0].0;
    assert(move_steps(m) == seq![(l, 1u8)]);
    assert(move_steps(spec_doubled(m)) == seq![(l, 2u8)]);
    assert(move_steps(spec_reversed(m)) == seq![(l, 3u8)]);
    lemma_face_move_named(m);
    lemma_face_move_named(spec_doubled(m));
    lemma_face_move_named(spec_reversed(m));
    let q = turn_times(solved_view(), l, 1);
    let s1 = turn_times(s, l, 1);
    let s2 = turn_times(s, l, 2);
    let s3 = turn_times(s, l, 3);
    lemma_turn_times_keeps_valid(s, l, 1);
    lemma_turn_times_keeps_valid(s, l, 2);
    lemma_turn_times_keeps_valid(s, l, 3);
    lemma_turn_times_is_following(s, l, 1);
    lemma_turn_times_is_following(s1, l, 1);
    lemma_turn_times_is_following(s2, l, 1);
    lemma_turn_times_is_following(s3, l, 1);
    lemma_turn_times_is_following(s, l, 2);
    lemma_turn_times_is_following(s, l, 3);
    lemma_turn_times_add(s, l, 1, 1);
    lemma_turn_times_add(s, l, 2, 1);
    lemma_turn_times_add(s, l, 3, 1);
    lemma_four_turns(s, l);
    if is_permutation(s.cp) {
        lemma_base_turn_facts(l);
        assert(shaped(base_turn_view(l)));
        lemma_solved_followed_by(base_turn_view(l));
        assert(turn_times(solved_view(), l, 0) == solved_view());
        assert(q == solved_view().followed_by(base_turn_view(l)));
        assert(q == base_turn_view(l));
        let i: int = if l == 1 { 4 } else if l == 2 { 1 } else if l == 4 { 2 } else { 0 };
        assert(base_turn_view(l).cp[i] != i);
        assert(s.followed_by(q).cp[i] == s.cp[base_turn_view(l).cp[i] as int]);
        assert(s.followed_by(q).cp[i] != s.cp[i]);
    }
}

/// The axis of a layer: 0 for U, D and E; 1 for R, L and M; 2 for F, B and S.
pub open spec fn layer_axis(l: u8) -> int {
    if l == 0 || l == 1 || l == 8 {
        0
    } else if l == 2 || l == 3 || l == 6 {
        1
    } else {
        2
    }
}

proof fn lemma_base_turns_commute(a: u8, b: u8)
    requires
        a < 9,
        b < 9,
        layer_axis(a) == layer_axis(b),
    ensures
        base_turn_view(a).followed_by(base_turn_view(b)) == base_turn_view(b).followed_by(base_turn_view(a)),
{
    let x = base_turn_view(a).followed_by(base_turn_view(b));
    let y = base_turn_view(b).followed_by(base_turn_view(a));
    assert(x.cp =~= y.cp);
    assert(x.co =~= y.co);
    assert(x.ep =~= y.ep);
    assert(x.eo =~= y.eo);
}

/// The quarter turn of a single layer: the face or slice turned and how often.
pub open spec fn single_layer_move(m: NotationMove) -> bool {
    move_steps(m).len() == 1
}

/// Turns of layers about the same axis (`U`, `D`, `E`; `R`, `L`, `M`; `F`, `B`,
/// `S`, in any amount) do not disturb each other: doing them in either order
/// gives the same cube.
pub proof fn lemma_same_axis_moves_commute(s: StateView, m1: NotationMove, m2: NotationMove)
    requires
        single_layer_move(m1),
        single_layer_move(m2),
        layer_axis(move_steps(m1)[0].0) == layer_axis(move_steps(m2)[0].0),
    ensures
        apply_notation(apply_notation(s, m1), m2) == apply_notation(apply_notation(s, m2), m1),
{
    reveal_with_fuel(apply_steps, 2);
    let (l1, t1) = move_steps(m1)[0];
    let (l2, t2) = move_steps(m2)[0];
    assert(move_steps(m1).drop_last() =~= Seq::<(u8, u8)>::empty());
    assert(move_steps(m2).drop_last() =~= Seq::<(u8, u8)>::empty());
    assert(apply_notation(s, m1) == turn_times(s, l1, t1 as nat));
    assert(apply_notation(s, m2) == turn_times(s, l2, t2 as nat));
    let s1 = turn_times(s, l1, t1 as nat);
    let s2 = turn_times(s, l2, t2 as nat);
    assert(apply_notation(s1, m2) == turn_times(s1, l2, t2 as nat));
    assert(apply_notation(s2, m1) == turn_times(s2, l1, t1 as nat));
    lemma_turn_times_commute(s, l1, l2, t1 as nat, t2 as nat);
}

/// Turning `a` then `b` on layers of one axis equals turning `b` then `a`.
proof fn lemma_turn_times_commute(s: StateView, a: u8, b: u8, ta: nat, tb: nat)
    requires
        a < 9,
        b < 9,
        layer_axis(a) == layer_axis(b),
    ensures
        turn_times(turn_times(s, a, ta), b, tb) == turn_times(turn_times(s, b, tb), a, ta),
    decreases ta,
{
    if ta > 0 {
        let v = turn_times(s, a, (ta - 1) as nat);
        lemma_turn_times_add(s, a, (ta - 1) as nat, 1);
        lemma_one_turn_commutes(v, a, b, tb);
        lemma_turn_times_commute(s, a, b, (ta - 1) as nat, tb);
        lemma_turn_times_add(turn_times(s, b, tb), a, (ta - 1) as nat, 1);
    }
}

/// One turn of `a` can be moved past `t` turns of `b` on the same axis.
proof fn lemma_one_turn_commutes(s: StateView, a: u8, b: u8, t: nat)
    requires
        a < 9,
        b < 9,
        layer_axis(a) == layer_axis(b),
    ensures
        turn_times(turn_times(s, a, 1), b, t) == turn_times(turn_times(s, b, t), a, 1),
    decreases t,
{
    lemma_base_turn_facts(a);
    lemma_base_turn_facts(b);
    assert(turn_times(s, a, 0) == s);
    if t > 0 {
        lemma_one_turn_commutes(s, a, b, (t - 1) as nat);
        let u = turn_times(s, b, (t - 1) as nat);
        assert(turn_times(u, a, 0) == u);
        lemma_followed_by_assoc(u, base_turn_view(a), base_turn_view(b));
        lemma_followed_by_assoc(u, base_turn_view(b), base_turn_view(a));
        lemma_base_turns_commute(a, b);
        assert(turn_times(turn_times(s, b, t), a, 0) == turn_times(s, b, t));
    }
}

/// Reading the texts of face turns as a scramble performs those turns.
pub proof fn lemma_scramble_of_face_turns(s: StateView, ms: Seq<NotationMove>)
    requires
        shaped(s),
        s.orientations_valid(),
        forall|i: int| 0 <= i < ms.len() ==> is_face_turn(ms[i]),
    ensures
        scramble_result(s, ms.map_values(|m: NotationMove| move_text(m))) == apply_notation_seq(s, ms),
    decreases ms.len(),
{
    let ws = ms.map_values(|m: NotationMove| move_text(m));
    if ms.len() > 0 {
        let init = ms.drop_last();
        let m = ms.last();
        assert(ws.drop_last() =~= init.map_values(|m: NotationMove| move_text(m)));
        lemma_scramble_of_face_turns(s, init);
        lemma_notation_seq_keeps_valid(s, init);
        assert(is_face_turn(m));
        assert(is_face_move(m));
        lemma_named_face_moves_agree(apply_notation_seq(s, init), m);
        assert(ws.last() == move_text(m));
    } else {
        assert(ws.len() == 0);
    }
}

/// Scrambling with the text of a sequence of face turns followed by its
/// reversed sequence leaves the cube solved.
pub proof fn lemma_scramble_then_reversed(ms: Seq<NotationMove>)
    requires
        forall|i: int| 0 <= i < ms.len() ==> is_face_turn(ms[i]),
    ensures
        scramble_result(solved_view(), words(sequence_text(ms + spec_reversed_sequence(ms)))) == solved_view(),
{
    let all = ms + spec_reversed_sequence(ms);
    assert forall|i: int| 0 <= i < all.len() implies is_face_turn(#[trigger] all[i]) by {
        if i >= ms.len() {
            assert(all[i] == spec_reversed(ms[ms.len() - 1 - (i - ms.len())]));
        }
    }
    lemma_words_of_sequence_text(all);
    assert(shaped(solved_view()));
    lemma_scramble_of_face_turns(solved_view(), all);
    lemma_notation_seq_append(solved_view(), ms, spec_reversed_sequence(ms));
    lemma_sequence_then_reversed(solved_view(), ms);
}

/// The face turn named at slot `k` of the cube's table.
spec fn slot_move(k: int) -> NotationMove {
    if k == 0 {
        NotationMove::B
    } else if k == 1 {
        NotationMove::BPrime
    } else if k == 2 {
        NotationMove::B2
    } else if k == 3 {
        NotationMove::D
    } else if k == 4 {
        NotationMove::DPrime
    } else if k == 5 {
        NotationMove::D2
    } else if k == 6 {
        NotationMove::F
    } else if k == 7 {
        NotationMove::FPrime
    } else if k == 8 {
        NotationMove::F2
    } else if k == 9 {
        NotationMove::L
    } else if k == 10 {
        NotationMove::LPrime
    } else if k == 11 {
        NotationMove::L2
    } else if k == 12 {
        NotationMove::R
    } else if k == 13 {
        NotationMove::RPrime
    } else if k == 14 {
        NotationMove::R2
    } else if k == 15 {
        NotationMove::U
    } else if k == 16 {
        NotationMove::UPrime
    } else if k == 17 {
        NotationMove::U2
    } else {
        NotationMove::Noop
    }
}

proof fn lemma_slot_names(k: int)
    requires
        0 <= k < 18,
    ensures
        cube_table()[k].0 == move_text(slot_move(k)),
        is_face_turn(slot_move(k)),
{
    assert(cube_table()[k].0 =~= move_text(slot_move(k)));
}

proof fn lemma_lookup_found(t: Seq<(Seq<char>, StateView)>, name: Seq<char>) -> (k: int)
    requires
        table_lookup(t, name) is Some,
    ensures
        0 <= k < t.len(),
        t[k].0 == name,
    decreases t.len(),
{
    if t[0].0 == name {
        0
    } else {
        let j = lemma_lookup_found(t.drop_first(), name);
        assert(t.drop_first()[j] == t[j + 1]);
        j + 1
    }
}

/// A move that is not a face turn names nothing in the cube's table.
proof fn lemma_lookup_non_face(m: NotationMove)
    requires
        m != NotationMove::Noop,
        !is_face_turn(m),
    ensures
        named_move(move_text(m)) is None,
{
    if named_move(move_text(m)) is Some {
        let k = lemma_lookup_found(cube_table(), move_text(m));
        lemma_slot_names(k);
        lemma_move_text_injective(m, slot_move(k));
    }
}

/// The face turns of `ms`, in order.
pub open spec fn face_turns_of(ms: Seq<NotationMove>) -> Seq<NotationMove>
    decreases ms.len(),
{
    if ms.len() == 0 {
        Seq::empty()
    } else if is_face_turn(ms.last()) {
        face_turns_of(ms.drop_last()).push(ms.last())
    } else {
        face_turns_of(ms.drop_last())
    }
}

/// Scrambling with `a + b` is scrambling with `a` and then with `b`.
pub proof fn lemma_scramble_append(s: StateView, a: Seq<Seq<char>>, b: Seq<Seq<char>>)
    ensures
        scramble_result(s, a + b) == scramble_result(scramble_result(s, a), b),
    decreases b.len(),
{
    if b.len() == 0 {
        assert(a + b =~= a);
    } else {
        assert((a + b).drop_last() =~= a + b.drop_last());
        lemma_scramble_append(s, a, b.drop_last());
    }
}

/// Reading the written form of any sequence as a scramble performs its face
/// turns; its other moves name nothing in the table and are skipped.
pub proof fn lemma_scramble_of_written_sequence(s: StateView, ms: Seq<NotationMove>)
    requires
        shaped(s),
        s.orientations_valid(),
    ensures
        scramble_result(s, written_words(ms)) == apply_notation_seq(s, face_turns_of(ms)),
    decreases ms.len(),
{
    if ms.len() > 0 {
        let init = ms.drop_last();
        let m = ms.last();
        lemma_scramble_of_written_sequence(s, init);
        let prev = apply_notation_seq(s, face_turns_of(init));
        if m == NotationMove::Noop {
        } else if is_face_turn(m) {
            lemma_notation_seq_keeps_valid(s, face_turns_of(init));
            lemma_named_face_moves_agree(prev, m);
            let f = face_turns_of(init).push(m);
            assert(f.drop_last() =~= face_turns_of(init));
            assert(written_words(ms).drop_last() =~= written_words(init));
        } else {
            lemma_lookup_non_face(m);
            assert(written_words(ms).drop_last() =~= written_words(init));
        }
    }
}

proof fn lemma_reversed_keeps_face_turns(m: NotationMove)
    ensures
        is_face_turn(spec_reversed(m)) == is_face_turn(m),
{
}

/// The face turns of the reversed sequence are the reversed face turns.
proof fn lemma_face_turns_of_reversed(ms: Seq<NotationMove>)
    ensures
        face_turns_of(spec_reversed_sequence(ms)) == spec_reversed_sequence(face_turns_of(ms)),
    decreases ms.len(),
{
    if ms.len() > 0 {
        let init = ms.drop_last();
        let m = ms.last();
        lemma_face_turns_of_reversed(init);
        lemma_face_turns_of_prepend(spec_reversed(m), spec_reversed_sequence(init));
        assert(spec_reversed_sequence(ms) =~= seq![spec_reversed(m)] + spec_reversed_sequence(init));
        lemma_reversed_keeps_face_turns(m);
        if is_face_turn(m) {
            let f = face_turns_of(init);
            assert(spec_reversed_sequence(f.push(m)) =~= seq![spec_reversed(m)] + spec_reversed_sequence(f));
        }
    }
}

proof fn lemma_face_turns_of_prepend(m: NotationMove, ms: Seq<NotationMove>)
    ensures
        face_turns_of(seq![m] + ms) == (if is_face_turn(m) { seq![m] } else { Seq::<NotationMove>::empty() }) + face_turns_of(ms),
    decreases ms.len(),
{
    let pre = if is_face_turn(m) { seq![m] } else { Seq::<NotationMove>::empty() };
    if ms.len() == 0 {
        assert(seq![m] + ms =~= seq![m]);
        assert(seq![m].drop_last() =~= Seq::<NotationMove>::empty());
        assert(face_turns_of(Seq::<NotationMove>::empty()) == Seq::<NotationMove>::empty());
        assert(seq![m].last() == m);
        if is_face_turn(m) {
            assert(Seq::<NotationMove>::empty().push(m) =~= seq![m]);
        }
        assert(pre + face_turns_of(ms) =~= pre);
    } else {
        assert((seq![m] + ms).drop_last() =~= seq![m] + ms.drop_last());
        assert((seq![m] + ms).last() == ms.last());
        lemma_face_turns_of_prepend(m, ms.drop_last());
        if is_face_turn(ms.last()) {
            assert((pre + face_turns_of(ms.drop_last())).push(ms.last()) =~= pre + face_turns_of(ms.drop_last()).push(ms.last()));
        }
    }
}

/// Scrambling with the written form of any sequence, a space, and the written
/// form of its reversed sequence leaves the cube solved.
pub proof fn lemma_scramble_text_then_reversed(ms: Seq<NotationMove>)
    ensures
        scramble_result(
            solved_view(),
            words(sequence_text(ms) + seq![' '] + sequence_text(spec_reversed_sequence(ms))),
        ) == solved_view(),
{
    let r = spec_reversed_sequence(ms);
    lemma_words_space_concat(sequence_text(ms), sequence_text(r));
    lemma_words_of_any_sequence_text(ms);
    lemma_words_of_any_sequence_text(r);
    lemma_scramble_append(solved_view(), written_words(ms), written_words(r));
    assert(shaped(solved_view()));
    lemma_scramble_of_written_sequence(solved_view(), ms);
    let mid = apply_notation_seq(solved_view(), face_turns_of(ms));
    lemma_notation_seq_keeps_valid(solved_view(), face_turns_of(ms));
    lemma_scramble_of_written_sequence(mid, r);
    lemma_face_turns_of_reversed(ms);
    lemma_sequence_then_reversed(solved_view(), face_turns_of(ms));
}

} // verus!
