//! The sticker colours that a cube state shows on each face.
use vstd::prelude::*;
use super::colors::{center_color, face_index, face_slot, CubeColor, CubeDisplay, Face};
use crate::cube::state::{State, StateView};

verus! {

/// The corner slots of a face, in the order upper left, upper right, lower right, lower left.
pub open spec fn face_corner_slots(f: int) -> Seq<usize> {
    if f == 0 {
        seq![0usize, 1, 2, 3]
    } else if f == 1 {
        seq![4usize, 7, 6, 5]
    } else if f == 2 {
        seq![0usize, 3, 7, 4]
    } else if f == 3 {
        seq![2usize, 1, 5, 6]
    } else if f == 4 {
        seq![3usize, 2, 6, 7]
    } else {
        seq![1usize, 0, 4, 5]
    }
}

/// The edge slots of a face, in the order upper, right, lower, left.
pub open spec fn face_edge_slots(f: int) -> Seq<usize> {
    if f == 0 {
        seq![0usize, 1, 2, 3]
    } else if f == 1 {
        seq![8usize, 11, 10, 9]
    } else if f == 2 {
        seq![3usize, 7, 11, 4]
    } else if f == 3 {
        seq![1usize, 5, 9, 6]
    } else if f == 4 {
        seq![2usize, 5, 10, 7]
    } else {
        seq![0usize, 4, 8, 6]
    }
}

/// The three colours of corner piece `c` (up/down colour first); white for an unknown piece.
pub open spec fn corner_base_colors(c: int) -> Seq<CubeColor> {
    if c == 0 {
        seq![CubeColor::White, CubeColor::Blue, CubeColor::Orange]
    } else if c == 1 {
        seq![CubeColor::White, CubeColor::Red, CubeColor::Blue]
    } else if c == 2 {
        seq![CubeColor::White, CubeColor::Green, CubeColor::Red]
    } else if c == 3 {
        seq![CubeColor::White, CubeColor::Orange, CubeColor::Green]
    } else if c == 4 {
        seq![CubeColor::Yellow, CubeColor::Orange, CubeColor::Blue]
    } else if c == 5 {
        seq![CubeColor::Yellow, CubeColor::Blue, CubeColor::Red]
    } else if c == 6 {
        seq![CubeColor::Yellow, CubeColor::Red, CubeColor::Green]
    } else if c == 7 {
        seq![CubeColor::Yellow, CubeColor::Green, CubeColor::Orange]
    } else {
        seq![CubeColor::White, CubeColor::White, CubeColor::White]
    }
}

/// The colours of corner piece `c` with twist `o`: rotated right once for 1,
/// left once for 2, unchanged otherwise.
pub open spec fn corner_colors(c: int, o: int) -> Seq<CubeColor> {
    let b = corner_base_colors(c);
    if o == 1 {
        seq![b[2], b[0], b[1]]
    } else if o == 2 {
        seq![b[1], b[2], b[0]]
    } else {
        b
    }
}

/// The two colours of edge piece `e`; white for an unknown piece.
pub open spec fn edge_base_colors(e: int) -> Seq<CubeColor> {
    if e == 0 {
        seq![CubeColor::White, CubeColor::Blue]
    } else if e == 1 {
        seq![CubeColor::White, CubeColor::Red]
    } else if e == 2 {
        seq![CubeColor::White, CubeColor::Green]
    } else if e == 3 {
        seq![CubeColor::White, CubeColor::Orange]
    } else if e == 4 {
        seq![CubeColor::Orange, CubeColor::Blue]
    } else if e == 5 {
        seq![CubeColor::Green, CubeColor::Red]
    } else if e == 6 {
        seq![CubeColor::Red, CubeColor::Blue]
    } else if e == 7 {
        seq![CubeColor::Orange, CubeColor::Green]
    } else if e == 8 {
        seq![CubeColor::Yellow, CubeColor::Blue]
    } else if e == 9 {
        seq![CubeColor::Yellow, CubeColor::Red]
    } else if e == 10 {
        seq![CubeColor::Yellow, CubeColor::Green]
    } else if e == 11 {
        seq![CubeColor::Yellow, CubeColor::Orange]
    } else {
        seq![CubeColor::White, CubeColor::White]
    }
}

/// The colours of edge piece `e` with flip `o`: swapped for 1.
pub open spec fn edge_colors(e: int, o: int) -> Seq<CubeColor> {
    let b = edge_base_colors(e);
    if o == 1 {
        seq![b[1], b[0]]
    } else {
        b
    }
}

/// The colour a corner shows on face `f`: the first on up and down, the third
/// on left and right, the second on front and back.
pub open spec fn corner_color_on_face(f: int, colors: Seq<CubeColor>) -> CubeColor {
    if f == 0 || f == 1 {
        colors[0]
    } else if f == 2 || f == 3 {
        colors[2]
    } else {
        colors[1]
    }
}

/// The colour an edge shows on face `f`: the first on up and down, the second elsewhere.
pub open spec fn edge_color_on_face(f: int, colors: Seq<CubeColor>) -> CubeColor {
    if f == 0 || f == 1 {
        colors[0]
    } else {
        colors[1]
    }
}

/// The colour of the sticker that the corner in slot `slot` shows on face `f`.
pub open spec fn corner_sticker_color(s: StateView, f: int, slot: usize) -> CubeColor {
    corner_color_on_face(f, corner_colors(s.cp[slot as int] as int, s.co[slot as int] as int))
}

/// The colour of the sticker that the edge in slot `slot` shows on face `f`.
pub open spec fn edge_sticker_color(s: StateView, f: int, slot: usize) -> CubeColor {
    edge_color_on_face(f, edge_colors(s.ep[slot as int] as int, s.eo[slot as int] as int))
}

/// The colours of face `f` of state `s`, rows top to bottom: corners at the
/// grid's corners, edges at its sides, the fixed centre colour in the middle.
pub open spec fn face_grid(s: StateView, f: int) -> Seq<Seq<CubeColor>> {
    let cs = face_corner_slots(f);
    let es = face_edge_slots(f);
    seq![
        seq![corner_sticker_color(s, f, cs[0]), edge_sticker_color(s, f, es[0]), corner_sticker_color(s, f, cs[1])],
        seq![edge_sticker_color(s, f, es[3]), center_color(f), edge_sticker_color(s, f, es[1])],
        seq![corner_sticker_color(s, f, cs[3]), edge_sticker_color(s, f, es[2]), corner_sticker_color(s, f, cs[2])],
    ]
}

/// Computes what a state looks like: the colours of every face.
pub struct StateToDisplay;

impl StateToDisplay {
    /// The display of `state`: every face as in [`face_grid`].
    pub fn convert(state: &State) -> (d: CubeDisplay)
        ensures
            forall|f: int, r: int, c: int|
                0 <= f < 6 && 0 <= r < 3 && 0 <= c < 3 ==> #[trigger] d.faces@[f].cells@[r]@[c] == face_grid(
                    state@,
                    f,
                )[r][c],
    {
        let mut display = CubeDisplay::new_solved();
        let face_colors = Self::calculate_face_colors_from_state(state);
        let mut k: usize = 0;
        while k < 6
            invariant
                k <= 6,
                forall|f: int, r: int, c: int|
                    0 <= f < 6 && 0 <= r < 3 && 0 <= c < 3 ==> #[trigger] face_colors@[f]@[r]@[c] == face_grid(
                        state@,
                        f,
                    )[r][c],
                forall|f: int, r: int, c: int|
                    0 <= f < k && 0 <= r < 3 && 0 <= c < 3 ==> #[trigger] display.faces@[f].cells@[r]@[c]
                        == face_grid(state@, f)[r][c],
            decreases 6 - k,
        {
            display.faces[k].cells = face_colors[k];
            k = k + 1;
        }
        display
    }

    fn calculate_face_colors_from_state(state: &State) -> (r: [[[CubeColor; 3]; 3]; 6])
        ensures
            forall|f: int, i: int, j: int|
                0 <= f < 6 && 0 <= i < 3 && 0 <= j < 3 ==> #[trigger] r@[f]@[i]@[j] == face_grid(state@, f)[i][j],
    {
        [
            Self::calculate_single_face(Face::Up, state),
            Self::calculate_single_face(Face::Down, state),
            Self::calculate_single_face(Face::Left, state),
            Self::calculate_single_face(Face::Right, state),
            Self::calculate_single_face(Face::Front, state),
            Self::calculate_single_face(Face::Back, state),
        ]
    }

    fn calculate_single_face(face: Face, state: &State) -> (g: [[CubeColor; 3]; 3])
        ensures
            forall|i: int, j: int|
                0 <= i < 3 && 0 <= j < 3 ==> #[trigger] g@[i]@[j] == face_grid(state@, face_index(face))[i][j],
    {
        let f = face_slot(&face);
        let corners = Self::get_face_corners(&face);
        let edges = Self::get_face_edges(&face);
        let center = match face {
            Face::Up => CubeColor::White,
            Face::Down => CubeColor::Yellow,
            Face::Left => CubeColor::Orange,
            Face::Right => CubeColor::Red,
            Face::Front => CubeColor::Green,
            Face::Back => CubeColor::Blue,
        };
        let c0 = Self::corner_at(&face, state, corners[0]);
        let c1 = Self::corner_at(&face, state, corners[1]);
        let c2 = Self::corner_at(&face, state, corners[2]);
        let c3 = Self::corner_at(&face, state, corners[3]);
        let e0 = Self::edge_at(&face, state, edges[0]);
        let e1 = Self::edge_at(&face, state, edges[1]);
        let e2 = Self::edge_at(&face, state, edges[2]);
        let e3 = Self::edge_at(&face, state, edges[3]);
        [[c0, e0, c1], [e3, center, e1], [c3, e2, c2]]
    }

    fn corner_at(face: &Face, state: &State, slot: usize) -> (c: CubeColor)
        requires
            slot < 8,
        ensures
            c == corner_sticker_color(state@, face_index(*face), slot),
    {
        let actual_corner = state.cp[slot] as usize;
        let orientation = state.co[slot];
        let colors = Self::get_corner_colors(actual_corner, orientation);
        Self::get_color_on_face(face, colors)
    }

    fn edge_at(face: &Face, state: &State, slot: usize) -> (c: CubeColor)
        requires
            slot < 12,
        ensures
            c == edge_sticker_color(state@, face_index(*face), slot),
    {
        let actual_edge = state.ep[slot] as usize;
        let orientation = state.eo[slot];
        let colors = Self::get_edge_colors(actual_edge, orientation);
        Self::get_edge_color_on_face(face, colors)
    }

    fn get_face_corners(face: &Face) -> (r: [usize; 4])
        ensures
            r@ == face_corner_slots(face_index(*face)),
    {
        let r = match face {
            Face::Up => [0, 1, 2, 3],
            Face::Down => [4, 7, 6, 5],
            Face::Left => [0, 3, 7, 4],
            Face::Right => [2, 1, 5, 6],
            Face::Front => [3, 2, 6, 7],
            Face::Back => [1, 0, 4, 5],
        };
        assert(r@ =~= face_corner_slots(face_index(*face)));
        r
    }

    fn get_face_edges(face: &Face) -> (r: [usize; 4])
        ensures
            r@ == face_edge_slots(face_index(*face)),
    {
        let r = match face {
            Face::Up => [0, 1, 2, 3],
            Face::Down => [8, 11, 10, 9],
            Face::Left => [3, 7, 11, 4],
            Face::Right => [1, 5, 9, 6],
            Face::Front => [2, 5, 10, 7],
            Face::Back => [0, 4, 8, 6],
        };
        assert(r@ =~= face_edge_slots(face_index(*face)));
        r
    }

    fn get_corner_colors(corner: usize, orientation: u8) -> (r: [CubeColor; 3])
        ensures
            r@ == corner_colors(corner as int, orientation as int),
    {
        let b = match corner {
            0 => [CubeColor::White, CubeColor::Blue, CubeColor::Orange],
            1 => [CubeColor::White, CubeColor::Red, CubeColor::Blue],
            2 => [CubeColor::White, CubeColor::Green, CubeColor::Red],
            3 => [CubeColor::White, CubeColor::Orange, CubeColor::Green],
            4 => [CubeColor::Yellow, CubeColor::Orange, CubeColor::Blue],
            5 => [CubeColor::Yellow, CubeColor::Blue, CubeColor::Red],
            6 => [CubeColor::Yellow, CubeColor::Red, CubeColor::Green],
            7 => [CubeColor::Yellow, CubeColor::Green, CubeColor::Orange],
            _ => [CubeColor::White, CubeColor::White, CubeColor::White],
        };
        assert(b@ =~= corner_base_colors(corner as int));
        let r = match orientation {
            0 => b,
            1 => [b[2], b[0], b[1]],
            2 => [b[1], b[2], b[0]],
            _ => b,
        };
        assert(r@ =~= corner_colors(corner as int, orientation as int));
        r
    }

    fn get_edge_colors(edge: usize, orientation: u8) -> (r: [CubeColor; 2])
        ensures
            r@ == edge_colors(edge as int, orientation as int),
    {
        let b = match edge {
            0 => [CubeColor::White, CubeColor::Blue],
            1 => [CubeColor::White, CubeColor::Red],
            2 => [CubeColor::White, CubeColor::Green],
            3 => [CubeColor::White, CubeColor::Orange],
            4 => [CubeColor::Orange, CubeColor::Blue],
            5 => [CubeColor::Green, CubeColor::Red],
            6 => [CubeColor::Red, CubeColor::Blue],
            7 => [CubeColor::Orange, CubeColor::Green],
            8 => [CubeColor::Yellow, CubeColor::Blue],
            9 => [CubeColor::Yellow, CubeColor::Red],
            10 => [CubeColor::Yellow, CubeColor::Green],
            11 => [CubeColor::Yellow, CubeColor::Orange],
            _ => [CubeColor::White, CubeColor::White],
        };
        assert(b@ =~= edge_base_colors(edge as int));
        let r = if orientation == 1 {
            [b[1], b[0]]
        } else {
            b
        };
        assert(r@ =~= edge_colors(edge as int, orientation as int));
        r
    }

    fn get_color_on_face(face: &Face, colors: [CubeColor; 3]) -> (c: CubeColor)
        ensures
            c == corner_color_on_face(face_index(*face), colors@),
    {
        match face {
            Face::Up | Face::Down => colors[0],
            Face::Left | Face::Right => colors[2],
            Face::Front | Face::Back => colors[1],
        }
    }

    fn get_edge_color_on_face(face: &Face, colors: [CubeColor; 2]) -> (c: CubeColor)
        ensures
            c == edge_color_on_face(face_index(*face), colors@),
    {
        match face {
            Face::Up | Face::Down => colors[0],
            Face::Left | Face::Right | Face::Front | Face::Back => colors[1],
        }
    }
}

} // verus!
