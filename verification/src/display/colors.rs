//! Sticker colours and the per-face sticker layouts of the cube display.
use vstd::prelude::*;
use crate::text::{empty_string, push_char, push_str};

verus! {

/// A sticker colour; `Void` is an unpainted sticker.
#[derive(Debug, Clone, Copy, PartialEq, Eq, Structural)]
pub enum CubeColor {
    White,
    Yellow,
    Orange,
    Red,
    Green,
    Blue,
    Void,
}

/// The letter of a colour (`?` for `Void`).
pub open spec fn color_char(c: CubeColor) -> char {
    match c {
        CubeColor::White => 'W',
        CubeColor::Yellow => 'Y',
        CubeColor::Orange => 'O',
        CubeColor::Red => 'R',
        CubeColor::Green => 'G',
        CubeColor::Blue => 'B',
        CubeColor::Void => '?',
    }
}

impl CubeColor {
    pub fn to_char(&self) -> (c: char)
        ensures
            c == color_char(*self),
    {
        match self {
            CubeColor::White => 'W',
            CubeColor::Yellow => 'Y',
            CubeColor::Orange => 'O',
            CubeColor::Red => 'R',
            CubeColor::Green => 'G',
            CubeColor::Blue => 'B',
            CubeColor::Void => '?',
        }
    }
}

/// A face of the cube.
#[derive(Debug, Clone, Copy, PartialEq, Eq, Hash, Structural)]
pub enum Face {
    Up,
    Down,
    Left,
    Right,
    Front,
    Back,
}

/// The slot of a face in the per-face tables: Up, Down, Left, Right, Front, Back.
pub open spec fn face_index(f: Face) -> int {
    match f {
        Face::Up => 0,
        Face::Down => 1,
        Face::Left => 2,
        Face::Right => 3,
        Face::Front => 4,
        Face::Back => 5,
    }
}

/// The slot of a face in the per-face tables.
pub fn face_slot(f: &Face) -> (i: usize)
    ensures
        i == face_index(*f),
{
    match f {
        Face::Up => 0,
        Face::Down => 1,
        Face::Left => 2,
        Face::Right => 3,
        Face::Front => 4,
        Face::Back => 5,
    }
}

/// A corner sticker position on a face.
#[derive(Debug, Clone, Copy, PartialEq, Eq, Structural)]
pub enum CornerSticker {
    UpperLeft,
    UpperRight,
    LowerLeft,
    LowerRight,
}

/// An edge sticker position on a face.
#[derive(Debug, Clone, Copy, PartialEq, Eq, Structural)]
pub enum EdgeSticker {
    Upper,
    Right,
    Lower,
    Left,
}

/// The slot of a corner position: upper left, upper right, lower right, lower left.
pub open spec fn corner_sticker_slot(p: CornerSticker) -> int {
    match p {
        CornerSticker::UpperLeft => 0,
        CornerSticker::UpperRight => 1,
        CornerSticker::LowerRight => 2,
        CornerSticker::LowerLeft => 3,
    }
}

/// The slot of an edge position: upper, right, lower, left.
pub open spec fn edge_sticker_slot(p: EdgeSticker) -> int {
    match p {
        EdgeSticker::Upper => 0,
        EdgeSticker::Right => 1,
        EdgeSticker::Lower => 2,
        EdgeSticker::Left => 3,
    }
}

/// The stickers of one face: corners (upper left, upper right, lower right,
/// lower left), edges (upper, right, lower, left) and the centre.
#[derive(Debug, Clone, Copy)]
pub struct FaceStickers {
    pub corners: [CubeColor; 4],
    pub edges: [CubeColor; 4],
    pub center: CubeColor,
}

/// The 3x3 grid of a face's stickers, rows top to bottom.
pub open spec fn sticker_grid(f: FaceStickers) -> Seq<Seq<CubeColor>> {
    seq![
        seq![f.corners@[0], f.edges@[0], f.corners@[1]],
        seq![f.edges@[3], f.center, f.edges@[1]],
        seq![f.corners@[3], f.edges@[2], f.corners@[2]],
    ]
}

impl FaceStickers {
    /// A face with every sticker unpainted.
    pub fn new_void() -> (r: Self)
        ensures
            r.corners@ == seq![CubeColor::Void, CubeColor::Void, CubeColor::Void, CubeColor::Void],
            r.edges@ == seq![CubeColor::Void, CubeColor::Void, CubeColor::Void, CubeColor::Void],
            r.center == CubeColor::Void,
    {
        let r = FaceStickers {
            corners: [CubeColor::Void, CubeColor::Void, CubeColor::Void, CubeColor::Void],
            edges: [CubeColor::Void, CubeColor::Void, CubeColor::Void, CubeColor::Void],
            center: CubeColor::Void,
        };
        assert(r.corners@ =~= seq![CubeColor::Void, CubeColor::Void, CubeColor::Void, CubeColor::Void]);
        assert(r.edges@ =~= seq![CubeColor::Void, CubeColor::Void, CubeColor::Void, CubeColor::Void]);
        r
    }

    pub fn set_corner(&mut self, position: CornerSticker, color: CubeColor)
        ensures
            final(self).corners@ == old(self).corners@.update(corner_sticker_slot(position), color),
            final(self).edges == old(self).edges,
            final(self).center == old(self).center,
    {
        let idx: usize = match position {
            CornerSticker::UpperLeft => 0,
            CornerSticker::UpperRight => 1,
            CornerSticker::LowerRight => 2,
            CornerSticker::LowerLeft => 3,
        };
        self.corners[idx] = color;
    }

    pub fn set_edge(&mut self, position: EdgeSticker, color: CubeColor)
        ensures
            final(self).edges@ == old(self).edges@.update(edge_sticker_slot(position), color),
            final(self).corners == old(self).corners,
            final(self).center == old(self).center,
    {
        let idx: usize = match position {
            EdgeSticker::Upper => 0,
            EdgeSticker::Right => 1,
            EdgeSticker::Lower => 2,
            EdgeSticker::Left => 3,
        };
        self.edges[idx] = color;
    }

    /// The stickers as a 3x3 grid (see [`sticker_grid`]).
    pub fn to_3x3_grid(&self) -> (g: [[CubeColor; 3]; 3])
        ensures
            g@.map_values(|row: [CubeColor; 3]| row@) == sticker_grid(*self),
    {
        let g = [
            [self.corners[0], self.edges[0], self.corners[1]],
            [self.edges[3], self.center, self.edges[1]],
            [self.corners[3], self.edges[2], self.corners[2]],
        ];
        assert(g@.map_values(|row: [CubeColor; 3]| row@) =~= sticker_grid(*self));
        g
    }
}

/// The colour letters of a list of stickers, separated by ", ", in brackets.
pub open spec fn letters_list(v: Seq<CubeColor>) -> Seq<char> {
    "["@ + list_body(v) + "]"@
}

/// The colour letters separated by ", ".
pub open spec fn list_body(v: Seq<CubeColor>) -> Seq<char>
    decreases v.len(),
{
    if v.len() == 0 {
        Seq::empty()
    } else if v.len() == 1 {
        seq![color_char(v[0])]
    } else {
        list_body(v.drop_last()) + ", "@ + seq![color_char(v.last())]
    }
}

/// The letters of a row, each followed by a space.
pub open spec fn row_letters(v: Seq<CubeColor>) -> Seq<char>
    decreases v.len(),
{
    if v.len() == 0 {
        Seq::empty()
    } else {
        row_letters(v.drop_last()) + seq![color_char(v.last()), ' ']
    }
}

fn push_list_body(s: &mut String, v: &[CubeColor])
    ensures
        final(s)@ == old(s)@ + list_body(v@),
{
    let mut i: usize = 0;
    while i < v.len()
        invariant
            i <= v.len(),
            s@ == old(s)@ + list_body(v@.take(i as int)),
        decreases v.len() - i,
    {
        assert(v@.take(i + 1).drop_last() =~= v@.take(i as int));
        if i > 0 {
            push_str(s, ", ");
        }
        push_char(s, v[i].to_char());
        i = i + 1;
        proof {
            if i == 1 {
                assert(s@ =~= old(s)@ + list_body(v@.take(1)));
            } else {
                assert(s@ =~= old(s)@ + list_body(v@.take(i as int)));
            }
        }
    }
    assert(v@.take(v.len() as int) =~= v@);
}

/// Appends the letters of a row, each followed by a space.
pub fn push_row_letters(s: &mut String, v: &[CubeColor])
    ensures
        final(s)@ == old(s)@ + row_letters(v@),
{
    let mut i: usize = 0;
    while i < v.len()
        invariant
            i <= v.len(),
            s@ == old(s)@ + row_letters(v@.take(i as int)),
        decreases v.len() - i,
    {
        assert(v@.take(i + 1).drop_last() =~= v@.take(i as int));
        push_char(s, v[i].to_char());
        push_char(s, ' ');
        i = i + 1;
        assert(s@ =~= old(s)@ + row_letters(v@.take(i as int)));
    }
    assert(v@.take(v.len() as int) =~= v@);
}

/// The names of the faces in the order the debug texts list them, with their slots.
pub open spec fn listing_faces() -> Seq<(Face, Seq<char>)> {
    seq![
        (Face::Up, "Up"@),
        (Face::Front, "Front"@),
        (Face::Right, "Right"@),
        (Face::Back, "Back"@),
        (Face::Left, "Left"@),
        (Face::Down, "Down"@),
    ]
}

fn listing_face(k: usize) -> (r: (Face, &'static str))
    requires
        k < 6,
    ensures
        r.0 == listing_faces()[k as int].0,
        r.1@ == listing_faces()[k as int].1,
{
    if k == 0 {
        (Face::Up, "Up")
    } else if k == 1 {
        (Face::Front, "Front")
    } else if k == 2 {
        (Face::Right, "Right")
    } else if k == 3 {
        (Face::Back, "Back")
    } else if k == 4 {
        (Face::Left, "Left")
    } else {
        (Face::Down, "Down")
    }
}

/// The head of one face's debug block: its name, corner, edge and centre letters.
pub open spec fn face_stickers_head(name: Seq<char>, f: FaceStickers) -> Seq<char> {
    "  "@ + name + " Face:\n"@ + "    Corners: "@ + letters_list(f.corners@) + "\n"@ + "    Edges:   "@ + letters_list(
        f.edges@,
    ) + "\n"@ + "    Center:  "@ + seq![color_char(f.center)] + "\n"@ + "    Grid:\n"@
}

/// The debug block of one face's stickers: its head, its grid rows, an empty line.
pub open spec fn face_stickers_block(name: Seq<char>, f: FaceStickers) -> Seq<char> {
    face_stickers_head(name, f) + grid_rows_text(sticker_grid(f), 3) + "\n"@
}

/// The debug text of all faces' stickers, faces in the order of [`listing_faces`].
pub open spec fn cube_stickers_text(faces: Seq<FaceStickers>) -> Seq<char> {
    "CubeStickers {\n"@ + Seq::new(
        6,
        |k: int| face_stickers_block(listing_faces()[k].1, faces[face_index(listing_faces()[k].0)]),
    ).flatten_alt() + "}"@
}

fn push_face_stickers_block(body: &mut String, name: &str, f: &FaceStickers)
    ensures
    final(body)@ == old(body)@ + face_stickers_block(name@, *f),
{
    push_str(body, "  ");
    push_str(body, name);
    push_str(body, " Face:\n");
    push_str(body, "    Corners: ");
    push_str(body, "[");
    push_list_body(body, f.corners.as_slice());
    push_str(body, "]");
    push_str(body, "\n");
    push_str(body, "    Edges:   ");
    push_str(body, "[");
    push_list_body(body, f.edges.as_slice());
    push_str(body, "]");
    push_str(body, "\n");
    push_str(body, "    Center:  ");
    push_char(body, f.center.to_char());
    push_str(body, "\n");
    push_str(body, "    Grid:\n");
    assert(body@ =~= old(body)@ + face_stickers_head(name@, *f));
    let grid = f.to_3x3_grid();
    let mut r: usize = 0;
    let ghost rows_start = body@;
    while r < 3
        invariant
            r <= 3,
            grid@.map_values(|row: [CubeColor; 3]| row@) == sticker_grid(*f),
            body@ == rows_start + grid_rows_text(sticker_grid(*f), r as int),
        decreases 3 - r,
    {
        push_str(body, "      ");
        push_row_letters(body, grid[r].as_slice());
        push_str(body, "\n");
        assert(grid@[r as int]@ == sticker_grid(*f)[r as int]);
        r = r + 1;
        assert(body@ =~= rows_start + grid_rows_text(sticker_grid(*f), r as int));
    }
    push_str(body, "\n");
    assert(body@ =~= old(body)@ + face_stickers_block(name@, *f));
}

/// The stickers of all six faces, indexed by [`face_index`].
#[derive(Debug, Clone, Copy)]
pub struct CubeStickers {
    pub faces: [FaceStickers; 6],
}

impl CubeStickers {
    /// Every sticker of every face unpainted.
    pub fn new_void() -> (r: Self)
        ensures
            forall|k: int|
                0 <= k < 6 ==> (#[trigger] r.faces@[k]).corners@ == seq![
                    CubeColor::Void,
                    CubeColor::Void,
                    CubeColor::Void,
                    CubeColor::Void,
                ] && r.faces@[k].edges@ == seq![CubeColor::Void, CubeColor::Void, CubeColor::Void, CubeColor::Void]
                    && r.faces@[k].center == CubeColor::Void,
    {
        let v = FaceStickers::new_void();
        CubeStickers { faces: [v, v, v, v, v, v] }
    }

    /// The stickers of `face`.
    pub fn get_face_mut(&mut self, face: &Face) -> (r: &mut FaceStickers)
        ensures
            *r == old(self).faces@[face_index(*face)],
            final(self).faces@ == old(self).faces@.update(face_index(*face), *final(r)),
    {
        let i = face_slot(face);
        &mut self.faces[i]
    }

    /// A listing of every face's corner, edge and centre letters and its grid.
    pub fn to_debug_string(&self) -> (s: String)
        ensures
            s@ == cube_stickers_text(self.faces@),
    {
        let ghost blocks = Seq::new(
            6,
            |k: int| face_stickers_block(listing_faces()[k].1, self.faces@[face_index(listing_faces()[k].0)]),
        );
        let mut body = empty_string();
        let mut k: usize = 0;
        while k < 6
            invariant
                k <= 6,
                blocks == Seq::new(
                    6,
                    |k: int| face_stickers_block(listing_faces()[k].1, self.faces@[face_index(listing_faces()[k].0)]),
                ),
                body@ == blocks.take(k as int).flatten_alt(),
            decreases 6 - k,
        {
            assert(blocks.take(k + 1).drop_last() =~= blocks.take(k as int));
            let ghost before = body@;
            let (face, name) = listing_face(k);
            let f = self.faces[face_slot(&face)];
            push_face_stickers_block(&mut body, name, &f);
            assert(blocks[k as int] == face_stickers_block(name@, f));
            assert(body@ =~= before + blocks[k as int]);
            k = k + 1;
        }
        assert(blocks.take(6) =~= blocks);
        let mut s = empty_string();
        push_str(&mut s, "CubeStickers {\n");
        push_str(&mut s, body.as_str());
        push_str(&mut s, "}");
        s
    }
}

/// The first `n` grid rows, each as six spaces, its letters and a newline.
pub open spec fn grid_rows_text(g: Seq<Seq<CubeColor>>, n: int) -> Seq<char>
    decreases n,
{
    if n <= 0 {
        Seq::empty()
    } else {
        grid_rows_text(g, n - 1) + "      "@ + row_letters(g[n - 1]) + "\n"@
    }
}

/// A face of the display: 3x3 stickers, rows top to bottom.
#[derive(Debug, Clone, Copy)]
pub struct CubeFace {
    pub cells: [[CubeColor; 3]; 3],
}

impl CubeFace {
    /// A face all of one colour.
    pub fn new(color: CubeColor) -> (r: Self)
        ensures
            forall|i: int, j: int| 0 <= i < 3 && 0 <= j < 3 ==> #[trigger] r.cells@[i]@[j] == color,
    {
        CubeFace { cells: [[color, color, color], [color, color, color], [color, color, color]] }
    }

    pub fn get_cell(&self, row: usize, col: usize) -> (c: CubeColor)
        requires
            row < 3,
            col < 3,
        ensures
            c == self.cells@[row as int]@[col as int],
    {
        self.cells[row][col]
    }

    pub fn set_cell(&mut self, row: usize, col: usize, color: CubeColor)
        requires
            row < 3,
            col < 3,
        ensures
            forall|i: int, j: int|
                0 <= i < 3 && 0 <= j < 3 ==> #[trigger] final(self).cells@[i]@[j] == if i == row && j == col {
                    color
                } else {
                    old(self).cells@[i]@[j]
                },
    {
        self.cells[row][col] = color;
    }
}

/// The colour of a face's centre.
pub open spec fn center_color(f: int) -> CubeColor {
    if f == 0 {
        CubeColor::White
    } else if f == 1 {
        CubeColor::Yellow
    } else if f == 2 {
        CubeColor::Orange
    } else if f == 3 {
        CubeColor::Red
    } else if f == 4 {
        CubeColor::Green
    } else {
        CubeColor::Blue
    }
}

/// The debug block of one display face: its name, three rows of letters, an empty line.
pub open spec fn display_face_block(name: Seq<char>, cells: Seq<Seq<CubeColor>>) -> Seq<char> {
    "  "@ + name + " Face:\n"@ + display_rows_text(cells, 3) + "\n"@
}

/// The debug text of a display, faces in the order of [`listing_faces`].
pub open spec fn cube_display_text(faces: Seq<CubeFace>) -> Seq<char> {
    "CubeDisplay {\n"@ + Seq::new(
        6,
        |k: int|
            display_face_block(
                listing_faces()[k].1,
                faces[face_index(listing_faces()[k].0)].cells@.map_values(|row: [CubeColor; 3]| row@),
            ),
    ).flatten_alt() + "}"@
}

/// The colours of the six faces, indexed by [`face_index`].
#[derive(Debug, Clone, Copy)]
pub struct CubeDisplay {
    pub faces: [CubeFace; 6],
}

impl CubeDisplay {
    /// Every face in its centre colour.
    pub fn new_solved() -> (r: Self)
        ensures
            forall|f: int, i: int, j: int|
                0 <= f < 6 && 0 <= i < 3 && 0 <= j < 3 ==> #[trigger] r.faces@[f].cells@[i]@[j] == center_color(f),
    {
        CubeDisplay {
            faces: [
                CubeFace::new(CubeColor::White),
                CubeFace::new(CubeColor::Yellow),
                CubeFace::new(CubeColor::Orange),
                CubeFace::new(CubeColor::Red),
                CubeFace::new(CubeColor::Green),
                CubeFace::new(CubeColor::Blue),
            ],
        }
    }

    /// The colours of `face`.
    pub fn get_face(&self, face: &Face) -> (r: &CubeFace)
        ensures
            *r == self.faces@[face_index(*face)],
    {
        &self.faces[face_slot(face)]
    }

    /// The colours of `face`, to change.
    pub fn get_face_mut(&mut self, face: &Face) -> (r: &mut CubeFace)
        ensures
            *r == old(self).faces@[face_index(*face)],
            final(self).faces@ == old(self).faces@.update(face_index(*face), *final(r)),
    {
        let i = face_slot(face);
        &mut self.faces[i]
    }

    /// A listing of every face's rows of letters.
    pub fn to_debug_string(&self) -> (s: String)
        ensures
            s@ == cube_display_text(self.faces@),
    {
        let ghost blocks = Seq::new(
            6,
            |k: int|
                display_face_block(
                    listing_faces()[k].1,
                    self.faces@[face_index(listing_faces()[k].0)].cells@.map_values(|row: [CubeColor; 3]| row@),
                ),
        );
        let mut body = empty_string();
        let mut k: usize = 0;
        while k < 6
            invariant
                k <= 6,
                blocks == Seq::new(
                    6,
                    |k: int|
                        display_face_block(
                            listing_faces()[k].1,
                            self.faces@[face_index(listing_faces()[k].0)].cells@.map_values(
                                |row: [CubeColor; 3]| row@,
                            ),
                        ),
                ),
                body@ == blocks.take(k as int).flatten_alt(),
            decreases 6 - k,
        {
            assert(blocks.take(k + 1).drop_last() =~= blocks.take(k as int));
            let ghost before = body@;
            let (face, name) = listing_face(k);
            let f = self.get_face(&face);
            let ghost cells = f.cells@.map_values(|row: [CubeColor; 3]| row@);
            push_str(&mut body, "  ");
            push_str(&mut body, name);
            push_str(&mut body, " Face:\n");
            let mut row: usize = 0;
            let ghost rows_start = body@;
            while row < 3
                invariant
                    row <= 3,
                    cells == f.cells@.map_values(|row: [CubeColor; 3]| row@),
                    body@ == rows_start + display_rows_text(cells, row as int),
                decreases 3 - row,
            {
                push_str(&mut body, "    ");
                let mut col: usize = 0;
                let ghost row_start = body@;
                while col < 3
                    invariant
                        row < 3,
                        col <= 3,
                        cells == f.cells@.map_values(|row: [CubeColor; 3]| row@),
                        body@ == row_start + row_letters(cells[row as int].take(col as int)),
                    decreases 3 - col,
                {
                    assert(cells[row as int].take(col + 1).drop_last() =~= cells[row as int].take(col as int));
                    let color = f.get_cell(row, col);
                    push_char(&mut body, color.to_char());
                    push_char(&mut body, ' ');
                    col = col + 1;
                    assert(body@ =~= row_start + row_letters(cells[row as int].take(col as int)));
                }
                assert(cells[row as int].take(3) =~= cells[row as int]);
                push_str(&mut body, "\n");
                row = row + 1;
                assert(body@ =~= rows_start + display_rows_text(cells, row as int));
            }
            push_str(&mut body, "\n");
            assert(blocks[k as int] == display_face_block(name@, cells));
            assert(body@ =~= before + blocks[k as int]);
            k = k + 1;
        }
        assert(blocks.take(6) =~= blocks);
        let mut s = empty_string();
        push_str(&mut s, "CubeDisplay {\n");
        push_str(&mut s, body.as_str());
        push_str(&mut s, "}");
        s
    }
}

/// The first `n` rows of a display face, each as four spaces, its letters and a newline.
pub open spec fn display_rows_text(g: Seq<Seq<CubeColor>>, n: int) -> Seq<char>
    decreases n,
{
    if n <= 0 {
        Seq::empty()
    } else {
        display_rows_text(g, n - 1) + "    "@ + row_letters(g[n - 1]) + "\n"@
    }
}

} // verus!
