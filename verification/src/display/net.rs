//! The unfolded net of a cube display: lines of text pieces and coloured stickers.
use vstd::prelude::*;
use super::colors::{color_char, CubeColor, CubeDisplay, CubeFace, Face};
use crate::text::{empty_string, push_char, push_str};

verus! {

/// A piece of a net line: its text and, for a sticker, its colour.
pub type NetSegment = (String, Option<CubeColor>);

/// The view of a line of pieces.
pub open spec fn segments_view(v: Seq<NetSegment>) -> Seq<(Seq<char>, Option<CubeColor>)> {
    v.map_values(|p: NetSegment| (p.0@, p.1))
}

/// A plain text piece.
pub open spec fn text_seg(t: Seq<char>) -> (Seq<char>, Option<CubeColor>) {
    (t, None)
}

/// A sticker: its letter padded to two columns, on its colour.
pub open spec fn sticker_seg(c: CubeColor) -> (Seq<char>, Option<CubeColor>) {
    (seq![color_char(c), ' '], Some(c))
}

/// The three stickers of row `r` of a face.
pub open spec fn face_row_segs(f: CubeFace, r: int) -> Seq<(Seq<char>, Option<CubeColor>)> {
    seq![sticker_seg(f.cells@[r]@[0]), sticker_seg(f.cells@[r]@[1]), sticker_seg(f.cells@[r]@[2])]
}

/// The indentation of the up and down faces: one face and one border wide.
pub open spec fn net_padding() -> Seq<char> {
    "       "@
}

/// A horizontal border as wide as a face.
pub open spec fn net_bar() -> Seq<char> {
    "──────"@
}

/// A line of the up or down face: indentation, border, three stickers, border.
pub open spec fn side_face_line(f: CubeFace, r: int) -> Seq<(Seq<char>, Option<CubeColor>)> {
    seq![text_seg(net_padding()), text_seg("│"@)] + face_row_segs(f, r) + seq![text_seg("│"@)]
}

/// A line of the middle band: left, front, right and back faces between borders.
pub open spec fn band_line(faces: Seq<CubeFace>, r: int) -> Seq<(Seq<char>, Option<CubeColor>)> {
    seq![text_seg("│"@)] + face_row_segs(faces[2], r) + seq![text_seg("│"@)] + face_row_segs(faces[4], r)
        + seq![text_seg("│"@)] + face_row_segs(faces[3], r) + seq![text_seg("│"@)] + face_row_segs(faces[5], r)
        + seq![text_seg("│"@)]
}

/// The lines of the net: the up face above the front face, the left, front,
/// right and back faces in a band, the down face below the front face, framed
/// by borders.
pub open spec fn net_lines(faces: Seq<CubeFace>) -> Seq<Seq<(Seq<char>, Option<CubeColor>)>> {
    let up = faces[0];
    let down = faces[1];
    seq![
        seq![text_seg(net_top())],
        side_face_line(up, 0),
        side_face_line(up, 1),
        side_face_line(up, 2),
        seq![text_seg(net_band_top())],
        band_line(faces, 0),
        band_line(faces, 1),
        band_line(faces, 2),
        seq![text_seg(net_band_bottom())],
        side_face_line(down, 0),
        side_face_line(down, 1),
        side_face_line(down, 2),
        seq![text_seg(net_bottom())],
    ]
}

fn text_piece(t: &str) -> (p: NetSegment)
    ensures
        p.0@ == t@,
        p.1 is None,
{
    let mut s = empty_string();
    push_str(&mut s, t);
    (s, None)
}

fn push_face_row(line: &mut Vec<NetSegment>, f: &CubeFace, r: usize)
    requires
        r < 3,
    ensures
        segments_view(final(line)@) == segments_view(old(line)@) + face_row_segs(*f, r as int),
{
    let mut c: usize = 0;
    let ghost start = segments_view(line@);
    while c < 3
        invariant
            c <= 3,
            r < 3,
            segments_view(line@) == start + face_row_segs(*f, r as int).take(c as int),
        decreases 3 - c,
    {
        let color = f.get_cell(r, c);
        let mut s = empty_string();
        push_char(&mut s, color.to_char());
        push_char(&mut s, ' ');
        assert(s@ =~= seq![color_char(color), ' ']);
        let ghost before = segments_view(line@);
        line.push((s, Some(color)));
        assert(segments_view(line@) =~= before.push(sticker_seg(color)));
        assert(face_row_segs(*f, r as int).take(c + 1) =~= face_row_segs(*f, r as int).take(c as int).push(
            sticker_seg(color),
        ));
        c = c + 1;
    }
    assert(face_row_segs(*f, r as int).take(3) =~= face_row_segs(*f, r as int));
}

fn push_text(line: &mut Vec<NetSegment>, t: &str)
    ensures
        segments_view(final(line)@) == segments_view(old(line)@).push(text_seg(t@)),
{
    let p = text_piece(t);
    let ghost before = segments_view(line@);
    line.push(p);
    assert(segments_view(line@) =~= before.push(text_seg(t@)));
}

fn side_face_line_exec(f: &CubeFace, r: usize) -> (line: Vec<NetSegment>)
    requires
        r < 3,
    ensures
        segments_view(line@) == side_face_line(*f, r as int),
{
    let mut line: Vec<NetSegment> = Vec::new();
    assert(segments_view(line@) =~= Seq::<(Seq<char>, Option<CubeColor>)>::empty());
    push_text(&mut line, "       ");
    push_text(&mut line, "│");
    push_face_row(&mut line, f, r);
    push_text(&mut line, "│");
    assert(segments_view(line@) =~= side_face_line(*f, r as int));
    line
}

fn band_line_exec(cube: &CubeDisplay, r: usize) -> (line: Vec<NetSegment>)
    requires
        r < 3,
    ensures
        segments_view(line@) == band_line(cube.faces@, r as int),
{
    let mut line: Vec<NetSegment> = Vec::new();
    assert(segments_view(line@) =~= Seq::<(Seq<char>, Option<CubeColor>)>::empty());
    push_text(&mut line, "│");
    push_face_row(&mut line, cube.get_face(&Face::Left), r);
    push_text(&mut line, "│");
    push_face_row(&mut line, cube.get_face(&Face::Front), r);
    push_text(&mut line, "│");
    push_face_row(&mut line, cube.get_face(&Face::Right), r);
    push_text(&mut line, "│");
    push_face_row(&mut line, cube.get_face(&Face::Back), r);
    push_text(&mut line, "│");
    assert(segments_view(line@) =~= band_line(cube.faces@, r as int));
    line
}

/// The top border of the net.
pub open spec fn net_top() -> Seq<char> {
    net_padding() + "┌"@ + net_bar() + "┐"@
}

/// The border above the middle band.
pub open spec fn net_band_top() -> Seq<char> {
    "┌"@ + net_bar() + "┼"@ + net_bar() + "┼"@ + net_bar() + "┬"@ + net_bar() + "┐"@
}

/// The border below the middle band.
pub open spec fn net_band_bottom() -> Seq<char> {
    "└"@ + net_bar() + "┼"@ + net_bar() + "┼"@ + net_bar() + "┴"@ + net_bar() + "┘"@
}

/// The bottom border of the net.
pub open spec fn net_bottom() -> Seq<char> {
    net_padding() + "└"@ + net_bar() + "┘"@
}

fn text_line(s: String) -> (line: Vec<NetSegment>)
    ensures
        segments_view(line@) == seq![text_seg(s@)],
{
    let ghost sv = s@;
    let mut line: Vec<NetSegment> = Vec::new();
    line.push((s, None));
    assert(segments_view(line@) =~= seq![text_seg(sv)]);
    line
}

fn net_top_line() -> (line: Vec<NetSegment>)
    ensures
        segments_view(line@) == seq![text_seg(net_top())],
{
    let mut s = empty_string();
    push_str(&mut s, "       ");
    push_str(&mut s, "┌");
    push_str(&mut s, "──────");
    push_str(&mut s, "┐");
    assert(s@ =~= net_top());
    text_line(s)
}

fn net_bottom_line() -> (line: Vec<NetSegment>)
    ensures
        segments_view(line@) == seq![text_seg(net_bottom())],
{
    let mut s = empty_string();
    push_str(&mut s, "       ");
    push_str(&mut s, "└");
    push_str(&mut s, "──────");
    push_str(&mut s, "┘");
    assert(s@ =~= net_bottom());
    text_line(s)
}

fn net_band_top_line() -> (line: Vec<NetSegment>)
    ensures
        segments_view(line@) == seq![text_seg(net_band_top())],
{
    let mut s = empty_string();
    push_str(&mut s, "┌");
    push_str(&mut s, "──────");
    push_str(&mut s, "┼");
    push_str(&mut s, "──────");
    push_str(&mut s, "┼");
    push_str(&mut s, "──────");
    push_str(&mut s, "┬");
    push_str(&mut s, "──────");
    push_str(&mut s, "┐");
    assert(s@ =~= net_band_top());
    text_line(s)
}

fn net_band_bottom_line() -> (line: Vec<NetSegment>)
    ensures
        segments_view(line@) == seq![text_seg(net_band_bottom())],
{
    let mut s = empty_string();
    push_str(&mut s, "└");
    push_str(&mut s, "──────");
    push_str(&mut s, "┼");
    push_str(&mut s, "──────");
    push_str(&mut s, "┼");
    push_str(&mut s, "──────");
    push_str(&mut s, "┴");
    push_str(&mut s, "──────");
    push_str(&mut s, "┘");
    assert(s@ =~= net_band_bottom());
    text_line(s)
}

fn push_line(lines: &mut Vec<Vec<NetSegment>>, line: Vec<NetSegment>)
    ensures
        final(lines)@.map_values(|l: Vec<NetSegment>| segments_view(l@)) == old(lines)@.map_values(
            |l: Vec<NetSegment>| segments_view(l@),
        ).push(segments_view(line@)),
{
    let ghost lv = segments_view(line@);
    lines.push(line);
    assert(lines@.map_values(|l: Vec<NetSegment>| segments_view(l@)) =~= old(lines)@.map_values(
        |l: Vec<NetSegment>| segments_view(l@),
    ).push(lv));
}

/// The lines of the net of `cube` (see [`net_lines`]).
pub fn cube_net_lines(cube: &CubeDisplay) -> (lines: Vec<Vec<NetSegment>>)
    ensures
        lines@.map_values(|l: Vec<NetSegment>| segments_view(l@)) == net_lines(cube.faces@),
{
    let ghost net = net_lines(cube.faces@);
    let mut lines: Vec<Vec<NetSegment>> = Vec::new();
    assert(lines@.map_values(|l: Vec<NetSegment>| segments_view(l@)) =~= net.take(0));
    push_line(&mut lines, net_top_line());
    assert(lines@.map_values(|l: Vec<NetSegment>| segments_view(l@)) =~= net.take(1));
    let up = cube.get_face(&Face::Up);
    let mut r: usize = 0;
    while r < 3
        invariant
            r <= 3,
            *up == cube.faces@[0],
            net == net_lines(cube.faces@),
            lines@.map_values(|l: Vec<NetSegment>| segments_view(l@)) == net.take(1 + r),
        decreases 3 - r,
    {
        push_line(&mut lines, side_face_line_exec(up, r));
        r = r + 1;
        assert(lines@.map_values(|l: Vec<NetSegment>| segments_view(l@)) =~= net.take(1 + r));
    }
    push_line(&mut lines, net_band_top_line());
    assert(lines@.map_values(|l: Vec<NetSegment>| segments_view(l@)) =~= net.take(5));
    let mut b: usize = 0;
    while b < 3
        invariant
            b <= 3,
            net == net_lines(cube.faces@),
            lines@.map_values(|l: Vec<NetSegment>| segments_view(l@)) == net.take(5 + b),
        decreases 3 - b,
    {
        push_line(&mut lines, band_line_exec(cube, b));
        b = b + 1;
        assert(lines@.map_values(|l: Vec<NetSegment>| segments_view(l@)) =~= net.take(5 + b));
    }
    push_line(&mut lines, net_band_bottom_line());
    assert(lines@.map_values(|l: Vec<NetSegment>| segments_view(l@)) =~= net.take(9));
    let down = cube.get_face(&Face::Down);
    let mut d: usize = 0;
    while d < 3
        invariant
            d <= 3,
            *down == cube.faces@[1],
            net == net_lines(cube.faces@),
            lines@.map_values(|l: Vec<NetSegment>| segments_view(l@)) == net.take(9 + d),
        decreases 3 - d,
    {
        push_line(&mut lines, side_face_line_exec(down, d));
        d = d + 1;
        assert(lines@.map_values(|l: Vec<NetSegment>| segments_view(l@)) =~= net.take(9 + d));
    }
    push_line(&mut lines, net_bottom_line());
    assert(lines@.map_values(|l: Vec<NetSegment>| segments_view(l@)) =~= net);
    lines
}

} // verus!
