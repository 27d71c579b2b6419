use vstd::prelude::*;
use crate::text::{push_char, push_str, empty_string};

verus! {

/// One move in standard cube notation.
///
/// Face turns (`U`, `U2`, `U'`, ...), wide turns (`Uw`, `Uw2`, `Uw'`, ...), slice
/// turns (`M`, `S`, `E` and their double and inverse forms) and `Noop`, the
/// empty move that stands for a deleted step.
#[derive(Debug, Clone, Copy, PartialEq, Eq, Structural)]
pub enum NotationMove {
    U,
    U2,
    UPrime,
    D,
    D2,
    DPrime,
    R,
    R2,
    RPrime,
    L,
    L2,
    LPrime,
    F,
    F2,
    FPrime,
    B,
    B2,
    BPrime,
    UWide,
    UWide2,
    UWidePrime,
    DWide,
    DWide2,
    DWidePrime,
    RWide,
    RWide2,
    RWidePrime,
    LWide,
    LWide2,
    LWidePrime,
    FWide,
    FWide2,
    FWidePrime,
    BWide,
    BWide2,
    BWidePrime,
    M,
    M2,
    MPrime,
    S,
    S2,
    SPrime,
    E,
    E2,
    EPrime,
    Noop,
}

/// A list of moves.
pub type Sequence = Vec<NotationMove>;

/// The written form of a move: face letter, `w` for a wide turn, then `2` or `'`.
/// `Noop` is written as the empty text.
pub open spec fn move_text(m: NotationMove) -> Seq<char> {
    match m {
        NotationMove::U => seq!['U'],
        NotationMove::U2 => seq!['U', '2'],
        NotationMove::UPrime => seq!['U', '\''],
        NotationMove::D => seq!['D'],
        NotationMove::D2 => seq!['D', '2'],
        NotationMove::DPrime => seq!['D', '\''],
        NotationMove::R => seq!['R'],
        NotationMove::R2 => seq!['R', '2'],
        NotationMove::RPrime => seq!['R', '\''],
        NotationMove::L => seq!['L'],
        NotationMove::L2 => seq!['L', '2'],
        NotationMove::LPrime => seq!['L', '\''],
        NotationMove::F => seq!['F'],
        NotationMove::F2 => seq!['F', '2'],
        NotationMove::FPrime => seq!['F', '\''],
        NotationMove::B => seq!['B'],
        NotationMove::B2 => seq!['B', '2'],
        NotationMove::BPrime => seq!['B', '\''],
        NotationMove::UWide => seq!['U', 'w'],
        NotationMove::UWide2 => seq!['U', 'w', '2'],
        NotationMove::UWidePrime => seq!['U', 'w', '\''],
        NotationMove::DWide => seq!['D', 'w'],
        NotationMove::DWide2 => seq!['D', 'w', '2'],
        NotationMove::DWidePrime => seq!['D', 'w', '\''],
        NotationMove::RWide => seq!['R', 'w'],
        NotationMove::RWide2 => seq!['R', 'w', '2'],
        NotationMove::RWidePrime => seq!['R', 'w', '\''],
        NotationMove::LWide => seq!['L', 'w'],
        NotationMove::LWide2 => seq!['L', 'w', '2'],
        NotationMove::LWidePrime => seq!['L', 'w', '\''],
        NotationMove::FWide => seq!['F', 'w'],
        NotationMove::FWide2 => seq!['F', 'w', '2'],
        NotationMove::FWidePrime => seq!['F', 'w', '\''],
        NotationMove::BWide => seq!['B', 'w'],
        NotationMove::BWide2 => seq!['B', 'w', '2'],
        NotationMove::BWidePrime => seq!['B', 'w', '\''],
        NotationMove::M => seq!['M'],
        NotationMove::M2 => seq!['M', '2'],
        NotationMove::MPrime => seq!['M', '\''],
        NotationMove::S => seq!['S'],
        NotationMove::S2 => seq!['S', '2'],
        NotationMove::SPrime => seq!['S', '\''],
        NotationMove::E => seq!['E'],
        NotationMove::E2 => seq!['E', '2'],
        NotationMove::EPrime => seq!['E', '\''],
        NotationMove::Noop => Seq::empty(),
    }
}

/// The inverse turn of a move (double turns and `Noop` are their own inverse).
pub open spec fn spec_reversed(m: NotationMove) -> NotationMove {
    match m {
        NotationMove::U => NotationMove::UPrime,
        NotationMove::U2 => NotationMove::U2,
        NotationMove::UPrime => NotationMove::U,
        NotationMove::D => NotationMove::DPrime,
        NotationMove::D2 => NotationMove::D2,
        NotationMove::DPrime => NotationMove::D,
        NotationMove::R => NotationMove::RPrime,
        NotationMove::R2 => NotationMove::R2,
        NotationMove::RPrime => NotationMove::R,
        NotationMove::L => NotationMove::LPrime,
        NotationMove::L2 => NotationMove::L2,
        NotationMove::LPrime => NotationMove::L,
        NotationMove::F => NotationMove::FPrime,
        NotationMove::F2 => NotationMove::F2,
        NotationMove::FPrime => NotationMove::F,
        NotationMove::B => NotationMove::BPrime,
        NotationMove::B2 => NotationMove::B2,
        NotationMove::BPrime => NotationMove::B,
        NotationMove::UWide => NotationMove::UWidePrime,
        NotationMove::UWide2 => NotationMove::UWide2,
        NotationMove::UWidePrime => NotationMove::UWide,
        NotationMove::DWide => NotationMove::DWidePrime,
        NotationMove::DWide2 => NotationMove::DWide2,
        NotationMove::DWidePrime => NotationMove::DWide,
        NotationMove::RWide => NotationMove::RWidePrime,
        NotationMove::RWide2 => NotationMove::RWide2,
        NotationMove::RWidePrime => NotationMove::RWide,
        NotationMove::LWide => NotationMove::LWidePrime,
        NotationMove::LWide2 => NotationMove::LWide2,
        NotationMove::LWidePrime => NotationMove::LWide,
        NotationMove::FWide => NotationMove::FWidePrime,
        NotationMove::FWide2 => NotationMove::FWide2,
        NotationMove::FWidePrime => NotationMove::FWide,
        NotationMove::BWide => NotationMove::BWidePrime,
        NotationMove::BWide2 => NotationMove::BWide2,
        NotationMove::BWidePrime => NotationMove::BWide,
        NotationMove::M => NotationMove::MPrime,
        NotationMove::M2 => NotationMove::M2,
        NotationMove::MPrime => NotationMove::M,
        NotationMove::S => NotationMove::SPrime,
        NotationMove::S2 => NotationMove::S2,
        NotationMove::SPrime => NotationMove::S,
        NotationMove::E => NotationMove::EPrime,
        NotationMove::E2 => NotationMove::E2,
        NotationMove::EPrime => NotationMove::E,
        NotationMove::Noop => NotationMove::Noop,
    }
}

/// The half turn of the same layer (`Noop` stays `Noop`).
pub open spec fn spec_doubled(m: NotationMove) -> NotationMove {
    match m {
        NotationMove::U => NotationMove::U2,
        NotationMove::U2 => NotationMove::U2,
        NotationMove::UPrime => NotationMove::U2,
        NotationMove::D => NotationMove::D2,
        NotationMove::D2 => NotationMove::D2,
        NotationMove::DPrime => NotationMove::D2,
        NotationMove::R => NotationMove::R2,
        NotationMove::R2 => NotationMove::R2,
        NotationMove::RPrime => NotationMove::R2,
        NotationMove::L => NotationMove::L2,
        NotationMove::L2 => NotationMove::L2,
        NotationMove::LPrime => NotationMove::L2,
        NotationMove::F => NotationMove::F2,
        NotationMove::F2 => NotationMove::F2,
        NotationMove::FPrime => NotationMove::F2,
        NotationMove::B => NotationMove::B2,
        NotationMove::B2 => NotationMove::B2,
        NotationMove::BPrime => NotationMove::B2,
        NotationMove::UWide => NotationMove::UWide2,
        NotationMove::UWide2 => NotationMove::UWide2,
        NotationMove::UWidePrime => NotationMove::UWide2,
        NotationMove::DWide => NotationMove::DWide2,
        NotationMove::DWide2 => NotationMove::DWide2,
        NotationMove::DWidePrime => NotationMove::DWide2,
        NotationMove::RWide => NotationMove::RWide2,
        NotationMove::RWide2 => NotationMove::RWide2,
        NotationMove::RWidePrime => NotationMove::RWide2,
        NotationMove::LWide => NotationMove::LWide2,
        NotationMove::LWide2 => NotationMove::LWide2,
        NotationMove::LWidePrime => NotationMove::LWide2,
        NotationMove::FWide => NotationMove::FWide2,
        NotationMove::FWide2 => NotationMove::FWide2,
        NotationMove::FWidePrime => NotationMove::FWide2,
        NotationMove::BWide => NotationMove::BWide2,
        NotationMove::BWide2 => NotationMove::BWide2,
        NotationMove::BWidePrime => NotationMove::BWide2,
        NotationMove::M => NotationMove::M2,
        NotationMove::M2 => NotationMove::M2,
        NotationMove::MPrime => NotationMove::M2,
        NotationMove::S => NotationMove::S2,
        NotationMove::S2 => NotationMove::S2,
        NotationMove::SPrime => NotationMove::S2,
        NotationMove::E => NotationMove::E2,
        NotationMove::E2 => NotationMove::E2,
        NotationMove::EPrime => NotationMove::E2,
        NotationMove::Noop => NotationMove::Noop,
    }
}
/// The parts of a written move: face letter, wide flag, and suffix
/// (0 for none, 1 for `2`, 2 for `'`).
pub open spec fn move_parts(m: NotationMove) -> (char, bool, u8) {
    match m {
        NotationMove::U => ('U', false, 0u8),
        NotationMove::U2 => ('U', false, 1u8),
        NotationMove::UPrime => ('U', false, 2u8),
        NotationMove::D => ('D', false, 0u8),
        NotationMove::D2 => ('D', false, 1u8),
        NotationMove::DPrime => ('D', false, 2u8),
        NotationMove::R => ('R', false, 0u8),
        NotationMove::R2 => ('R', false, 1u8),
        NotationMove::RPrime => ('R', false, 2u8),
        NotationMove::L => ('L', false, 0u8),
        NotationMove::L2 => ('L', false, 1u8),
        NotationMove::LPrime => ('L', false, 2u8),
        NotationMove::F => ('F', false, 0u8),
        NotationMove::F2 => ('F', false, 1u8),
        NotationMove::FPrime => ('F', false, 2u8),
        NotationMove::B => ('B', false, 0u8),
        NotationMove::B2 => ('B', false, 1u8),
        NotationMove::BPrime => ('B', false, 2u8),
        NotationMove::UWide => ('U', true, 0u8),
        NotationMove::UWide2 => ('U', true, 1u8),
        NotationMove::UWidePrime => ('U', true, 2u8),
        NotationMove::DWide => ('D', true, 0u8),
        NotationMove::DWide2 => ('D', true, 1u8),
        NotationMove::DWidePrime => ('D', true, 2u8),
        NotationMove::RWide => ('R', true, 0u8),
        NotationMove::RWide2 => ('R', true, 1u8),
        NotationMove::RWidePrime => ('R', true, 2u8),
        NotationMove::LWide => ('L', true, 0u8),
        NotationMove::LWide2 => ('L', true, 1u8),
        NotationMove::LWidePrime => ('L', true, 2u8),
        NotationMove::FWide => ('F', true, 0u8),
        NotationMove::FWide2 => ('F', true, 1u8),
        NotationMove::FWidePrime => ('F', true, 2u8),
        NotationMove::BWide => ('B', true, 0u8),
        NotationMove::BWide2 => ('B', true, 1u8),
        NotationMove::BWidePrime => ('B', true, 2u8),
        NotationMove::M => ('M', false, 0u8),
        NotationMove::M2 => ('M', false, 1u8),
        NotationMove::MPrime => ('M', false, 2u8),
        NotationMove::S => ('S', false, 0u8),
        NotationMove::S2 => ('S', false, 1u8),
        NotationMove::SPrime => ('S', false, 2u8),
        NotationMove::E => ('E', false, 0u8),
        NotationMove::E2 => ('E', false, 1u8),
        NotationMove::EPrime => ('E', false, 2u8),
        NotationMove::Noop => (' ', false, 0u8),
    }
}

/// The move with the given parts, if there is one.
pub open spec fn move_of_parts(face: char, wide: bool, suffix: u8) -> Option<NotationMove> {
    if face == 'U' && wide == false && suffix == 0 { Some(NotationMove::U) }
    else if face == 'U' && wide == false && suffix == 1 { Some(NotationMove::U2) }
    else if face == 'U' && wide == false && suffix == 2 { Some(NotationMove::UPrime) }
    else if face == 'D' && wide == false && suffix == 0 { Some(NotationMove::D) }
    else if face == 'D' && wide == false && suffix == 1 { Some(NotationMove::D2) }
    else if face == 'D' && wide == false && suffix == 2 { Some(NotationMove::DPrime) }
    else if face == 'R' && wide == false && suffix == 0 { Some(NotationMove::R) }
    else if face == 'R' && wide == false && suffix == 1 { Some(NotationMove::R2) }
    else if face == 'R' && wide == false && suffix == 2 { Some(NotationMove::RPrime) }
    else if face == 'L' && wide == false && suffix == 0 { Some(NotationMove::L) }
    else if face == 'L' && wide == false && suffix == 1 { Some(NotationMove::L2) }
    else if face == 'L' && wide == false && suffix == 2 { Some(NotationMove::LPrime) }
    else if face == 'F' && wide == false && suffix == 0 { Some(NotationMove::F) }
    else if face == 'F' && wide == false && suffix == 1 { Some(NotationMove::F2) }
    else if face == 'F' && wide == false && suffix == 2 { Some(NotationMove::FPrime) }
    else if face == 'B' && wide == false && suffix == 0 { Some(NotationMove::B) }
    else if face == 'B' && wide == false && suffix == 1 { Some(NotationMove::B2) }
    else if face == 'B' && wide == false && suffix == 2 { Some(NotationMove::BPrime) }
    else if face == 'U' && wide == true && suffix == 0 { Some(NotationMove::UWide) }
    else if face == 'U' && wide == true && suffix == 1 { Some(NotationMove::UWide2) }
    else if face == 'U' && wide == true && suffix == 2 { Some(NotationMove::UWidePrime) }
    else if face == 'D' && wide == true && suffix == 0 { Some(NotationMove::DWide) }
    else if face == 'D' && wide == true && suffix == 1 { Some(NotationMove::DWide2) }
    else if face == 'D' && wide == true && suffix == 2 { Some(NotationMove::DWidePrime) }
    else if face == 'R' && wide == true && suffix == 0 { Some(NotationMove::RWide) }
    else if face == 'R' && wide == true && suffix == 1 { Some(NotationMove::RWide2) }
    else if face == 'R' && wide == true && suffix == 2 { Some(NotationMove::RWidePrime) }
    else if face == 'L' && wide == true && suffix == 0 { Some(NotationMove::LWide) }
    else if face == 'L' && wide == true && suffix == 1 { Some(NotationMove::LWide2) }
    else if face == 'L' && wide == true && suffix == 2 { Some(NotationMove::LWidePrime) }
    else if face == 'F' && wide == true && suffix == 0 { Some(NotationMove::FWide) }
    else if face == 'F' && wide == true && suffix == 1 { Some(NotationMove::FWide2) }
    else if face == 'F' && wide == true && suffix == 2 { Some(NotationMove::FWidePrime) }
    else if face == 'B' && wide == true && suffix == 0 { Some(NotationMove::BWide) }
    else if face == 'B' && wide == true && suffix == 1 { Some(NotationMove::BWide2) }
    else if face == 'B' && wide == true && suffix == 2 { Some(NotationMove::BWidePrime) }
    else if face == 'M' && wide == false && suffix == 0 { Some(NotationMove::M) }
    else if face == 'M' && wide == false && suffix == 1 { Some(NotationMove::M2) }
    else if face == 'M' && wide == false && suffix == 2 { Some(NotationMove::MPrime) }
    else if face == 'S' && wide == false && suffix == 0 { Some(NotationMove::S) }
    else if face == 'S' && wide == false && suffix == 1 { Some(NotationMove::S2) }
    else if face == 'S' && wide == false && suffix == 2 { Some(NotationMove::SPrime) }
    else if face == 'E' && wide == false && suffix == 0 { Some(NotationMove::E) }
    else if face == 'E' && wide == false && suffix == 1 { Some(NotationMove::E2) }
    else if face == 'E' && wide == false && suffix == 2 { Some(NotationMove::EPrime) }
    else { None }
}

/// The text of a suffix code: nothing, `2` or `'`.
pub open spec fn suffix_text(suffix: u8) -> Seq<char> {
    if suffix == 1 {
        seq!['2']
    } else if suffix == 2 {
        seq!['\'']
    } else {
        Seq::empty()
    }
}

/// The text assembled from a move's parts.
pub open spec fn text_of_parts(face: char, wide: bool, suffix: u8) -> Seq<char> {
    seq![face] + (if wide { seq!['w'] } else { Seq::<char>::empty() }) + suffix_text(suffix)
}

/// Reads the written form of any move (face, wide or slice turn); `None` when
/// the text is not the text of a move.
pub open spec fn read_move_chars(t: Seq<char>) -> Option<NotationMove> {
    if t.len() == 0 {
        None
    } else {
        let face = t[0];
        let rest = t.drop_first();
        let wide = rest.len() > 0 && rest[0] == 'w';
        let after = if wide { rest.drop_first() } else { rest };
        if after.len() == 0 {
            move_of_parts(face, wide, 0)
        } else if after.len() == 1 && after[0] == '2' {
            move_of_parts(face, wide, 1)
        } else if after.len() == 1 && after[0] == '\'' {
            move_of_parts(face, wide, 2)
        } else {
            None
        }
    }
}

/// The 18 face turns: a quarter turn, half turn or inverse turn of one face.
pub open spec fn is_face_turn(m: NotationMove) -> bool {
    match m {
        NotationMove::U | NotationMove::U2 | NotationMove::UPrime | NotationMove::D | NotationMove::D2 | NotationMove::DPrime | NotationMove::R | NotationMove::R2 | NotationMove::RPrime | NotationMove::L | NotationMove::L2 | NotationMove::LPrime | NotationMove::F | NotationMove::F2 | NotationMove::FPrime | NotationMove::B | NotationMove::B2 | NotationMove::BPrime => true,
        _ => false,
    }
}

/// Reads one move token: only the 18 face turns are accepted; `None` for any
/// other text (wide and slice turns included).
pub open spec fn parse_move_chars(t: Seq<char>) -> Option<NotationMove> {
    match read_move_chars(t) {
        Some(m) => if is_face_turn(m) {
            Some(m)
        } else {
            None
        },
        None => None,
    }
}

/// The message of a token that is not a move.
pub open spec fn unknown_move_message(t: Seq<char>) -> Seq<char> {
    "Unknown move: "@ + t
}

/// Characters that std's `char::is_whitespace` accepts (Unicode `White_Space`).
pub open spec fn is_white_space(c: char) -> bool {
    let u = c as u32;
    ||| 0x9 <= u <= 0xd
    ||| u == 0x20
    ||| u == 0x85
    ||| u == 0xa0
    ||| u == 0x1680
    ||| 0x2000 <= u <= 0x200a
    ||| u == 0x2028
    ||| u == 0x2029
    ||| u == 0x202f
    ||| u == 0x205f
    ||| u == 0x3000
}

/// Scans `s` left to right: the words completed so far and the word being read.
pub open spec fn scan_words(s: Seq<char>) -> (Seq<Seq<char>>, Seq<char>)
    decreases s.len(),
{
    if s.len() == 0 {
        (Seq::empty(), Seq::empty())
    } else {
        let (done, cur) = scan_words(s.drop_last());
        let c = s.last();
        if is_white_space(c) {
            if cur.len() > 0 {
                (done.push(cur), Seq::empty())
            } else {
                (done, cur)
            }
        } else {
            (done, cur.push(c))
        }
    }
}

/// The maximal runs of non-whitespace characters of `s`, in order.
pub open spec fn words(s: Seq<char>) -> Seq<Seq<char>> {
    let (done, cur) = scan_words(s);
    if cur.len() > 0 {
        done.push(cur)
    } else {
        done
    }
}

/// The test "not white space".
pub open spec fn non_space() -> spec_fn(char) -> bool {
    |c: char| !is_white_space(c)
}

/// A word: at least one character, none of them white space.
pub open spec fn is_word(w: Seq<char>) -> bool {
    w.len() > 0 && forall|k: int| 0 <= k < w.len() ==> !is_white_space(#[trigger] w[k])
}

proof fn lemma_scan_words_parts(s: Seq<char>)
    ensures
        forall|i: int| 0 <= i < scan_words(s).0.len() ==> is_word(#[trigger] scan_words(s).0[i]),
        forall|k: int| 0 <= k < scan_words(s).1.len() ==> !is_white_space(#[trigger] scan_words(s).1[k]),
        scan_words(s).0.flatten_alt() + scan_words(s).1 == s.filter(non_space()),
    decreases s.len(),
{
    reveal(Seq::filter);
    if s.len() > 0 {
        let (d, cur) = scan_words(s.drop_last());
        lemma_scan_words_parts(s.drop_last());
        let c = s.last();
        assert(s.drop_last().push(c) =~= s);
        s.drop_last().lemma_filter_push(c, non_space());
        if is_white_space(c) {
            if cur.len() > 0 {
                let d2 = d.push(cur);
                assert(d2.drop_last() =~= d);
                assert(d2.flatten_alt() == d.flatten_alt() + cur);
                assert(d2.flatten_alt() + Seq::<char>::empty() =~= d.flatten_alt() + cur);
                assert forall|i: int| 0 <= i < d2.len() implies is_word(#[trigger] d2[i]) by {
                    if i < d.len() {
                        assert(d2[i] == d[i]);
                    }
                }
            }
        } else {
            assert(d.flatten_alt() + cur.push(c) =~= (d.flatten_alt() + cur).push(c));
        }
    }
}

/// The words of a text are non-empty, hold no white space, and together, in
/// order, are exactly the text's characters other than white space.
pub proof fn lemma_words_cover_text(s: Seq<char>)
    ensures
        forall|i: int| 0 <= i < words(s).len() ==> is_word(#[trigger] words(s)[i]),
        words(s).flatten() == s.filter(non_space()),
{
    lemma_scan_words_parts(s);
    let (d, cur) = scan_words(s);
    if cur.len() > 0 {
        let w = d.push(cur);
        assert(w.drop_last() =~= d);
        assert forall|i: int| 0 <= i < w.len() implies is_word(#[trigger] w[i]) by {
            if i < d.len() {
                assert(w[i] == d[i]);
            }
        }
    } else {
        assert(d.flatten_alt() + cur =~= d.flatten_alt());
    }
    words(s).lemma_flatten_and_flatten_alt_are_equivalent();
}

/// Reads each word as a move; the error is that of the first word that is not one.
pub open spec fn parse_words(ws: Seq<Seq<char>>) -> Result<Seq<NotationMove>, Seq<char>>
    decreases ws.len(),
{
    if ws.len() == 0 {
        Ok(Seq::empty())
    } else {
        match parse_words(ws.drop_last()) {
            Err(e) => Err(e),
            Ok(ms) => match parse_move_chars(ws.last()) {
                Some(m) => Ok(ms.push(m)),
                None => Err(unknown_move_message(ws.last())),
            },
        }
    }
}

/// The words joined by single spaces.
pub open spec fn join_words(ws: Seq<Seq<char>>) -> Seq<char>
    decreases ws.len(),
{
    if ws.len() == 0 {
        Seq::empty()
    } else if ws.len() == 1 {
        ws[0]
    } else {
        join_words(ws.drop_last()) + seq![' '] + ws.last()
    }
}

/// The written form of a sequence: the move texts separated by single spaces.
pub open spec fn sequence_text(s: Seq<NotationMove>) -> Seq<char> {
    join_words(s.map_values(|m: NotationMove| move_text(m)))
}

/// The inverse sequence: reversed order, each move inverted.
pub open spec fn spec_reversed_sequence(s: Seq<NotationMove>) -> Seq<NotationMove> {
    Seq::new(s.len(), |i: int| spec_reversed(s[s.len() - 1 - i]))
}

pub proof fn lemma_move_text_parts(m: NotationMove)
    requires
        m != NotationMove::Noop,
    ensures
        move_text(m) == text_of_parts(move_parts(m).0, move_parts(m).1, move_parts(m).2),
        move_of_parts(move_parts(m).0, move_parts(m).1, move_parts(m).2) == Some(m),
{
    assert(move_text(m) =~= text_of_parts(move_parts(m).0, move_parts(m).1, move_parts(m).2));
}

pub proof fn lemma_parts_of_move(face: char, wide: bool, suffix: u8, m: NotationMove)
    requires
        move_of_parts(face, wide, suffix) == Some(m),
    ensures
        m != NotationMove::Noop,
        move_parts(m) == (face, wide, suffix),
        face != 'w',
{
}

/// Reading the text of a move gives back that move, and only such texts are read.
pub proof fn lemma_read_move_chars(t: Seq<char>, m: NotationMove)
    ensures
        read_move_chars(t) == Some(m) <==> (m != NotationMove::Noop && move_text(m) == t),
{
    if m != NotationMove::Noop && move_text(m) == t {
        lemma_move_text_parts(m);
        let (f, w, s) = move_parts(m);
        lemma_parts_of_move(f, w, s, m);
        let rest = t.drop_first();
        if w {
            assert(rest =~= seq!['w'] + suffix_text(s));
            assert(rest.drop_first() =~= suffix_text(s));
        } else {
            assert(rest =~= suffix_text(s));
        }
    }
    if read_move_chars(t) == Some(m) {
        let face = t[0];
        let rest = t.drop_first();
        let wide = rest.len() > 0 && rest[0] == 'w';
        let after = if wide { rest.drop_first() } else { rest };
        let suffix: u8 = if after.len() == 0 { 0 } else if after[0] == '2' { 1 } else { 2 };
        lemma_parts_of_move(face, wide, suffix, m);
        lemma_move_text_parts(m);
        assert(after =~= suffix_text(suffix));
        if wide {
            assert(rest =~= seq!['w'] + after);
        }
        assert(t =~= seq![face] + rest);
        assert(t =~= text_of_parts(face, wide, suffix));
    }
}

/// Different moves are written differently.
pub proof fn lemma_move_text_injective(a: NotationMove, b: NotationMove)
    requires
        a != NotationMove::Noop,
        b != NotationMove::Noop,
        move_text(a) == move_text(b),
    ensures
        a == b,
{
    lemma_read_move_chars(move_text(a), a);
    lemma_read_move_chars(move_text(a), b);
}

/// A token is accepted exactly when it is the text of a face turn, and then it
/// reads as that turn.
pub proof fn lemma_parse_move_chars(t: Seq<char>, m: NotationMove)
    ensures
        parse_move_chars(t) == Some(m) <==> (is_face_turn(m) && move_text(m) == t),
{
    lemma_read_move_chars(t, m);
}

/// Inverting a move twice gives the move back.
pub proof fn lemma_reversed_involution(m: NotationMove)
    ensures
        spec_reversed(spec_reversed(m)) == m,
{
}

/// Doubling is idempotent.
pub proof fn lemma_doubled_idempotent(m: NotationMove)
    ensures
        spec_doubled(spec_doubled(m)) == spec_doubled(m),
{
}

/// Inverting a sequence twice gives the sequence back.
pub proof fn lemma_reversed_sequence_involution(s: Seq<NotationMove>)
    ensures
        spec_reversed_sequence(spec_reversed_sequence(s)) == s,
{
    let r = spec_reversed_sequence(spec_reversed_sequence(s));
    assert forall|i: int| 0 <= i < s.len() implies r[i] == s[i] by {
        lemma_reversed_involution(s[i]);
    }
    assert(r =~= s);
}

/// No character of `t` is whitespace.
pub open spec fn no_white_space(t: Seq<char>) -> bool {
    forall|i: int| 0 <= i < t.len() ==> !is_white_space(#[trigger] t[i])
}

proof fn lemma_scan_append_word(a: Seq<char>, b: Seq<char>)
    requires
        no_white_space(b),
    ensures
        scan_words(a + b) == (scan_words(a).0, scan_words(a).1 + b),
    decreases b.len(),
{
    if b.len() == 0 {
        assert(a + b =~= a);
        assert(scan_words(a).1 + b =~= scan_words(a).1);
    } else {
        let b2 = b.drop_last();
        assert((a + b).drop_last() =~= a + b2);
        assert((a + b).last() == b.last());
        lemma_scan_append_word(a, b2);
        assert(scan_words(a).1 + b2.push(b.last()) =~= scan_words(a).1 + b);
        assert(b2.push(b.last()) =~= b);
        assert((scan_words(a).1 + b2).push(b.last()) =~= scan_words(a).1 + b);
    }
}

proof fn lemma_scan_join(ws: Seq<Seq<char>>)
    requires
        ws.len() > 0,
        forall|i: int| 0 <= i < ws.len() ==> (#[trigger] ws[i]).len() > 0 && no_white_space(ws[i]),
    ensures
        scan_words(join_words(ws)) == (ws.drop_last(), ws.last()),
    decreases ws.len(),
{
    if ws.len() == 1 {
        lemma_scan_append_word(Seq::empty(), ws[0]);
        assert(Seq::<char>::empty() + ws[0] =~= ws[0]);
        assert(Seq::<char>::empty() + ws[0] =~= ws[0]);
        assert(ws.drop_last() =~= Seq::<Seq<char>>::empty());
    } else {
        let init = ws.drop_last();
        assert forall|i: int| 0 <= i < init.len() implies (#[trigger] init[i]).len() > 0 && no_white_space(init[i]) by {
            assert(init[i] == ws[i]);
        }
        lemma_scan_join(init);
        let j = join_words(init);
        let js = j + seq![' '];
        assert(js.drop_last() =~= j);
        assert(is_white_space(' '));
        assert(scan_words(js) == (init.drop_last().push(init.last()), Seq::<char>::empty()));
        assert(init.drop_last().push(init.last()) =~= init);
        lemma_scan_append_word(js, ws.last());
        assert(Seq::<char>::empty() + ws.last() =~= ws.last());
    }
}

/// Splitting a space-joined list of words gives back the words, provided none
/// is empty or contains whitespace.
pub proof fn lemma_words_join(ws: Seq<Seq<char>>)
    requires
        forall|i: int| 0 <= i < ws.len() ==> (#[trigger] ws[i]).len() > 0 && no_white_space(ws[i]),
    ensures
        words(join_words(ws)) == ws,
{
    if ws.len() == 0 {
        assert(words(join_words(ws)) =~= ws);
    } else {
        lemma_scan_join(ws);
        assert(ws.drop_last().push(ws.last()) =~= ws);
    }
}

proof fn lemma_parse_texts(s: Seq<NotationMove>)
    requires
        forall|i: int| 0 <= i < s.len() ==> is_face_turn(s[i]),
    ensures
        parse_words(s.map_values(|m: NotationMove| move_text(m))) == Ok::<Seq<NotationMove>, Seq<char>>(s),
    decreases s.len(),
{
    let ws = s.map_values(|m: NotationMove| move_text(m));
    if s.len() > 0 {
        let init = s.drop_last();
        lemma_parse_texts(init);
        assert(ws.drop_last() =~= init.map_values(|m: NotationMove| move_text(m)));
        lemma_parse_move_chars(ws.last(), s.last());
        assert(ws.last() == move_text(s.last()));
        assert(parse_move_chars(ws.last()) == Some(s.last()));
        assert(init.push(s.last()) =~= s);
    } else {
        assert(ws.len() == 0);
        assert(s =~= Seq::<NotationMove>::empty());
    }
}

/// The words of the written form of a sequence without `Noop` are the move texts.
pub proof fn lemma_words_of_sequence_text(s: Seq<NotationMove>)
    requires
        forall|i: int| 0 <= i < s.len() ==> s[i] != NotationMove::Noop,
    ensures
        words(sequence_text(s)) == s.map_values(|m: NotationMove| move_text(m)),
{
    let ws = s.map_values(|m: NotationMove| move_text(m));
    assert forall|i: int| 0 <= i < ws.len() implies (#[trigger] ws[i]).len() > 0 && no_white_space(ws[i]) by {
        lemma_move_text_parts(s[i]);
        let (f, w, x) = move_parts(s[i]);
        lemma_parts_of_move(f, w, x, s[i]);
    }
    lemma_words_join(ws);
}

/// Scanning on after a point where no word is being read adds the words of the rest.
proof fn lemma_scan_from_boundary(x: Seq<char>, b: Seq<char>)
    requires
        scan_words(x).1.len() == 0,
    ensures
        scan_words(x + b) == (scan_words(x).0 + scan_words(b).0, scan_words(b).1),
    decreases b.len(),
{
    if b.len() == 0 {
        assert(x + b =~= x);
        assert(scan_words(x).0 + Seq::<Seq<char>>::empty() =~= scan_words(x).0);
        assert(scan_words(x).1 =~= Seq::<char>::empty());
    } else {
        let b2 = b.drop_last();
        assert((x + b).drop_last() =~= x + b2);
        assert((x + b).last() == b.last());
        lemma_scan_from_boundary(x, b2);
        let w = scan_words(x).0;
        let d = scan_words(b2).0;
        let c = scan_words(b2).1;
        assert((w + d).push(c) =~= w + d.push(c));
    }
}

/// The words of two texts joined by a space are the words of the first, then
/// those of the second.
pub proof fn lemma_words_space_concat(a: Seq<char>, b: Seq<char>)
    ensures
        words(a + seq![' '] + b) == words(a) + words(b),
{
    let x = a + seq![' '];
    assert(x.drop_last() =~= a);
    assert(is_white_space(' '));
    assert(scan_words(x) == (words(a), Seq::<char>::empty()));
    lemma_scan_from_boundary(x, b);
    let d = scan_words(b).0;
    let c = scan_words(b).1;
    assert((words(a) + d).push(c) =~= words(a) + d.push(c));
}

/// The texts of the moves of `ms` other than `Noop`, in order.
pub open spec fn written_words(ms: Seq<NotationMove>) -> Seq<Seq<char>>
    decreases ms.len(),
{
    if ms.len() == 0 {
        Seq::empty()
    } else if ms.last() == NotationMove::Noop {
        written_words(ms.drop_last())
    } else {
        written_words(ms.drop_last()).push(move_text(ms.last()))
    }
}

proof fn lemma_words_of_move_text(m: NotationMove)
    ensures
        words(move_text(m)) == (if m == NotationMove::Noop { Seq::<Seq<char>>::empty() } else { seq![move_text(m)] }),
{
    if m == NotationMove::Noop {
        assert(move_text(m).len() == 0);
    } else {
        lemma_move_text_parts(m);
        let (f, w, x) = move_parts(m);
        lemma_parts_of_move(f, w, x, m);
        lemma_scan_append_word(Seq::empty(), move_text(m));
        assert(Seq::<char>::empty() + move_text(m) =~= move_text(m));
        assert(scan_words(Seq::<char>::empty()) == (Seq::<Seq<char>>::empty(), Seq::<char>::empty()));
        assert(Seq::<Seq<char>>::empty().push(move_text(m)) =~= seq![move_text(m)]);
    }
}

/// The words of the written form of any sequence are the texts of its moves,
/// `Noop` (written as nothing) left out.
pub proof fn lemma_words_of_any_sequence_text(ms: Seq<NotationMove>)
    ensures
        words(sequence_text(ms)) == written_words(ms),
    decreases ms.len(),
{
    let ws = ms.map_values(|m: NotationMove| move_text(m));
    if ms.len() == 0 {
        assert(sequence_text(ms) =~= Seq::<char>::empty());
        assert(words(Seq::<char>::empty()) =~= Seq::<Seq<char>>::empty());
    } else if ms.len() == 1 {
        lemma_words_of_move_text(ms[0]);
        assert(sequence_text(ms) == move_text(ms[0]));
        assert(ms.drop_last().len() == 0);
        assert(written_words(ms.drop_last()) =~= Seq::<Seq<char>>::empty());
        assert(Seq::<Seq<char>>::empty().push(move_text(ms[0])) =~= seq![move_text(ms[0])]);
    } else {
        let init = ms.drop_last();
        assert(ws.drop_last() =~= init.map_values(|m: NotationMove| move_text(m)));
        assert(sequence_text(ms) == sequence_text(init) + seq![' '] + move_text(ms.last()));
        lemma_words_of_any_sequence_text(init);
        lemma_words_space_concat(sequence_text(init), move_text(ms.last()));
        lemma_words_of_move_text(ms.last());
        if ms.last() == NotationMove::Noop {
            assert(written_words(init) + Seq::<Seq<char>>::empty() =~= written_words(init));
        } else {
            assert(written_words(init) + seq![move_text(ms.last())] =~= written_words(init).push(move_text(ms.last())));
        }
    }
}

/// Writing a sequence of face turns and reading it back gives the same moves.
pub proof fn lemma_sequence_text_round_trip(s: Seq<NotationMove>)
    requires
        forall|i: int| 0 <= i < s.len() ==> is_face_turn(s[i]),
    ensures
        parse_words(words(sequence_text(s))) == Ok::<Seq<NotationMove>, Seq<char>>(s),
{
    lemma_words_of_sequence_text(s);
    lemma_parse_texts(s);
}

fn move_from_parts(face: char, wide: bool, suffix: u8) -> (r: Option<NotationMove>)
    ensures
        r == move_of_parts(face, wide, suffix),
{
    if face == 'U' && wide == false && suffix == 0 { Some(NotationMove::U) }
    else if face == 'U' && wide == false && suffix == 1 { Some(NotationMove::U2) }
    else if face == 'U' && wide == false && suffix == 2 { Some(NotationMove::UPrime) }
    else if face == 'D' && wide == false && suffix == 0 { Some(NotationMove::D) }
    else if face == 'D' && wide == false && suffix == 1 { Some(NotationMove::D2) }
    else if face == 'D' && wide == false && suffix == 2 { Some(NotationMove::DPrime) }
    else if face == 'R' && wide == false && suffix == 0 { Some(NotationMove::R) }
    else if face == 'R' && wide == false && suffix == 1 { Some(NotationMove::R2) }
    else if face == 'R' && wide == false && suffix == 2 { Some(NotationMove::RPrime) }
    else if face == 'L' && wide == false && suffix == 0 { Some(NotationMove::L) }
    else if face == 'L' && wide == false && suffix == 1 { Some(NotationMove::L2) }
    else if face == 'L' && wide == false && suffix == 2 { Some(NotationMove::LPrime) }
    else if face == 'F' && wide == false && suffix == 0 { Some(NotationMove::F) }
    else if face == 'F' && wide == false && suffix == 1 { Some(NotationMove::F2) }
    else if face == 'F' && wide == false && suffix == 2 { Some(NotationMove::FPrime) }
    else if face == 'B' && wide == false && suffix == 0 { Some(NotationMove::B) }
    else if face == 'B' && wide == false && suffix == 1 { Some(NotationMove::B2) }
    else if face == 'B' && wide == false && suffix == 2 { Some(NotationMove::BPrime) }
    else if face == 'U' && wide == true && suffix == 0 { Some(NotationMove::UWide) }
    else if face == 'U' && wide == true && suffix == 1 { Some(NotationMove::UWide2) }
    else if face == 'U' && wide == true && suffix == 2 { Some(NotationMove::UWidePrime) }
    else if face == 'D' && wide == true && suffix == 0 { Some(NotationMove::DWide) }
    else if face == 'D' && wide == true && suffix == 1 { Some(NotationMove::DWide2) }
    else if face == 'D' && wide == true && suffix == 2 { Some(NotationMove::DWidePrime) }
    else if face == 'R' && wide == true && suffix == 0 { Some(NotationMove::RWide) }
    else if face == 'R' && wide == true && suffix == 1 { Some(NotationMove::RWide2) }
    else if face == 'R' && wide == true && suffix == 2 { Some(NotationMove::RWidePrime) }
    else if face == 'L' && wide == true && suffix == 0 { Some(NotationMove::LWide) }
    else if face == 'L' && wide == true && suffix == 1 { Some(NotationMove::LWide2) }
    else if face == 'L' && wide == true && suffix == 2 { Some(NotationMove::LWidePrime) }
    else if face == 'F' && wide == true && suffix == 0 { Some(NotationMove::FWide) }
    else if face == 'F' && wide == true && suffix == 1 { Some(NotationMove::FWide2) }
    else if face == 'F' && wide == true && suffix == 2 { Some(NotationMove::FWidePrime) }
    else if face == 'B' && wide == true && suffix == 0 { Some(NotationMove::BWide) }
    else if face == 'B' && wide == true && suffix == 1 { Some(NotationMove::BWide2) }
    else if face == 'B' && wide == true && suffix == 2 { Some(NotationMove::BWidePrime) }
    else if face == 'M' && wide == false && suffix == 0 { Some(NotationMove::M) }
    else if face == 'M' && wide == false && suffix == 1 { Some(NotationMove::M2) }
    else if face == 'M' && wide == false && suffix == 2 { Some(NotationMove::MPrime) }
    else if face == 'S' && wide == false && suffix == 0 { Some(NotationMove::S) }
    else if face == 'S' && wide == false && suffix == 1 { Some(NotationMove::S2) }
    else if face == 'S' && wide == false && suffix == 2 { Some(NotationMove::SPrime) }
    else if face == 'E' && wide == false && suffix == 0 { Some(NotationMove::E) }
    else if face == 'E' && wide == false && suffix == 1 { Some(NotationMove::E2) }
    else if face == 'E' && wide == false && suffix == 2 { Some(NotationMove::EPrime) }
    else { None }
}

fn parts_of_move(m: &NotationMove) -> (r: (char, bool, u8))
    requires
        *m != NotationMove::Noop,
    ensures
        r == move_parts(*m),
{
    match m {
        NotationMove::U => ('U', false, 0),
        NotationMove::U2 => ('U', false, 1),
        NotationMove::UPrime => ('U', false, 2),
        NotationMove::D => ('D', false, 0),
        NotationMove::D2 => ('D', false, 1),
        NotationMove::DPrime => ('D', false, 2),
        NotationMove::R => ('R', false, 0),
        NotationMove::R2 => ('R', false, 1),
        NotationMove::RPrime => ('R', false, 2),
        NotationMove::L => ('L', false, 0),
        NotationMove::L2 => ('L', false, 1),
        NotationMove::LPrime => ('L', false, 2),
        NotationMove::F => ('F', false, 0),
        NotationMove::F2 => ('F', false, 1),
        NotationMove::FPrime => ('F', false, 2),
        NotationMove::B => ('B', false, 0),
        NotationMove::B2 => ('B', false, 1),
        NotationMove::BPrime => ('B', false, 2),
        NotationMove::UWide => ('U', true, 0),
        NotationMove::UWide2 => ('U', true, 1),
        NotationMove::UWidePrime => ('U', true, 2),
        NotationMove::DWide => ('D', true, 0),
        NotationMove::DWide2 => ('D', true, 1),
        NotationMove::DWidePrime => ('D', true, 2),
        NotationMove::RWide => ('R', true, 0),
        NotationMove::RWide2 => ('R', true, 1),
        NotationMove::RWidePrime => ('R', true, 2),
        NotationMove::LWide => ('L', true, 0),
        NotationMove::LWide2 => ('L', true, 1),
        NotationMove::LWidePrime => ('L', true, 2),
        NotationMove::FWide => ('F', true, 0),
        NotationMove::FWide2 => ('F', true, 1),
        NotationMove::FWidePrime => ('F', true, 2),
        NotationMove::BWide => ('B', true, 0),
        NotationMove::BWide2 => ('B', true, 1),
        NotationMove::BWidePrime => ('B', true, 2),
        NotationMove::M => ('M', false, 0),
        NotationMove::M2 => ('M', false, 1),
        NotationMove::MPrime => ('M', false, 2),
        NotationMove::S => ('S', false, 0),
        NotationMove::S2 => ('S', false, 1),
        NotationMove::SPrime => ('S', false, 2),
        NotationMove::E => ('E', false, 0),
        NotationMove::E2 => ('E', false, 1),
        NotationMove::EPrime => ('E', false, 2),
        NotationMove::Noop => (' ', false, 0),
    }
}

/// Whether `c` is a Unicode `White_Space` character.
pub fn is_white_space_char(c: char) -> (b: bool)
    ensures
        b == is_white_space(c),
{
    let u = c as u32;
    (0x9 <= u && u <= 0xd) || u == 0x20 || u == 0x85 || u == 0xa0 || u == 0x1680 || (0x2000 <= u
        && u <= 0x200a) || u == 0x2028 || u == 0x2029 || u == 0x202f || u == 0x205f || u == 0x3000
}

/// Whether the move is one of the 18 face turns.
pub fn face_turn(m: &NotationMove) -> (b: bool)
    ensures
        b == is_face_turn(*m),
{
    match m {
        NotationMove::U | NotationMove::U2 | NotationMove::UPrime | NotationMove::D | NotationMove::D2 | NotationMove::DPrime | NotationMove::R | NotationMove::R2 | NotationMove::RPrime | NotationMove::L | NotationMove::L2 | NotationMove::LPrime | NotationMove::F | NotationMove::F2 | NotationMove::FPrime | NotationMove::B | NotationMove::B2 | NotationMove::BPrime => true,
        _ => false,
    }
}

/// Reads one move token given as characters: a face turn, or `None`.
pub fn move_from_chars(t: &Vec<char>) -> (r: Option<NotationMove>)
    ensures
        r == parse_move_chars(t@),
{
    match read_move_from_chars(t) {
        Some(m) => if face_turn(&m) {
            Some(m)
        } else {
            None
        },
        None => None,
    }
}

/// Reads the written form of any move given as characters.
fn read_move_from_chars(t: &Vec<char>) -> (r: Option<NotationMove>)
    ensures
        r == read_move_chars(t@),
{
    let n = t.len();
    if n == 0 {
        return None;
    }
    let face = t[0];
    let ghost rest = t@.drop_first();
    let wide = n > 1 && t[1] == 'w';
    let start: usize = if wide { 2 } else { 1 };
    let ghost after = if wide { rest.drop_first() } else { rest };
    assert(after =~= t@.subrange(start as int, n as int));
    if start == n {
        move_from_parts(face, wide, 0)
    } else if start + 1 == n && t[start] == '2' {
        move_from_parts(face, wide, 1)
    } else if start + 1 == n && t[start] == '\'' {
        move_from_parts(face, wide, 2)
    } else {
        None
    }
}

/// Appends the characters of a vector to a string.
pub fn push_chars(s: &mut String, t: &Vec<char>)
    ensures
        final(s)@ == old(s)@ + t@,
{
    let mut i: usize = 0;
    while i < t.len()
        invariant
            i <= t.len(),
            s@ == old(s)@ + t@.take(i as int),
        decreases t.len() - i,
    {
        push_char(s, t[i]);
        i = i + 1;
        assert(t@.take(i as int) =~= t@.take((i - 1) as int).push(t@[i - 1]));
    }
    assert(t@.take(t.len() as int) =~= t@);
}

/// The characters of a string slice, in order.
pub fn chars_of(s: &str) -> (v: Vec<char>)
    ensures
        v@ == s@,
{
    let n = s.unicode_len();
    let mut v: Vec<char> = Vec::new();
    let mut i: usize = 0;
    while i < n
        invariant
            i <= n,
            n == s@.len(),
            v@ == s@.take(i as int),
        decreases n - i,
    {
        v.push(s.get_char(i));
        i = i + 1;
        assert(v@ =~= s@.take(i as int));
    }
    assert(s@.take(n as int) =~= s@);
    v
}

/// A string holding the given characters.
pub fn string_from_chars(t: &Vec<char>) -> (s: String)
    ensures
        s@ == t@,
{
    let mut s = empty_string();
    push_chars(&mut s, t);
    assert(s@ =~= t@);
    s
}

fn unknown_move_error(t: &Vec<char>) -> (e: String)
    ensures
        e@ == unknown_move_message(t@),
{
    let mut e = "Unknown move: ".to_string();
    push_chars(&mut e, t);
    e
}

/// Splits characters into maximal runs of non-whitespace characters.
pub fn split_words(chars: &Vec<char>) -> (ws: Vec<Vec<char>>)
    ensures
        ws@.map_values(|w: Vec<char>| w@) == words(chars@),
{
    let mut done: Vec<Vec<char>> = Vec::new();
    let mut cur: Vec<char> = Vec::new();
    let mut i: usize = 0;
    while i < chars.len()
        invariant
            i <= chars.len(),
            (done@.map_values(|w: Vec<char>| w@), cur@) == scan_words(chars@.take(i as int)),
        decreases chars.len() - i,
    {
        let c = chars[i];
        let ghost prev_done = done@.map_values(|w: Vec<char>| w@);
        assert(chars@.take(i + 1).drop_last() =~= chars@.take(i as int));
        if is_white_space_char(c) {
            if cur.len() > 0 {
                let w = cur;
                let ghost wv = w@;
                done.push(w);
                cur = Vec::new();
                assert(done@.map_values(|w: Vec<char>| w@) =~= prev_done.push(wv));
            }
        } else {
            cur.push(c);
        }
        i = i + 1;
    }
    assert(chars@.take(chars.len() as int) =~= chars@);
    if cur.len() > 0 {
        let ghost prev_done = done@.map_values(|w: Vec<char>| w@);
        let ghost cv = cur@;
        done.push(cur);
        assert(done@.map_values(|w: Vec<char>| w@) =~= prev_done.push(cv));
    }
    done
}

impl NotationMove {
    /// Reads a move from its written form.
    pub fn from_str(s: &str) -> (r: Result<Self, String>)
        ensures
            match r {
                Ok(m) => parse_move_chars(s@) == Some(m),
                Err(e) => parse_move_chars(s@) is None && e@ == unknown_move_message(s@),
            },
    {
        let chars = chars_of(s);
        match move_from_chars(&chars) {
            Some(m) => Ok(m),
            None => Err(unknown_move_error(&chars)),
        }
    }

    /// The written form of the move; see [`move_text`].
    pub fn to_string(&self) -> (s: String)
        ensures
            s@ == move_text(*self),
    {
        let mut s = empty_string();
        if *self == NotationMove::Noop {
            return s;
        }
        let (face, wide, suffix) = parts_of_move(self);
        proof { lemma_move_text_parts(*self); }
        push_char(&mut s, face);
        if wide {
            push_char(&mut s, 'w');
        }
        if suffix == 1 {
            push_char(&mut s, '2');
        } else if suffix == 2 {
            push_char(&mut s, '\'');
        }
        assert(s@ =~= text_of_parts(face, wide, suffix));
        s
    }

    /// The inverse turn.
    pub fn reversed(&self) -> (r: Self)
        ensures
            r == spec_reversed(*self),
    {
        match self {
            NotationMove::U => NotationMove::UPrime,
            NotationMove::U2 => NotationMove::U2,
            NotationMove::UPrime => NotationMove::U,
            NotationMove::D => NotationMove::DPrime,
            NotationMove::D2 => NotationMove::D2,
            NotationMove::DPrime => NotationMove::D,
            NotationMove::R => NotationMove::RPrime,
            NotationMove::R2 => NotationMove::R2,
            NotationMove::RPrime => NotationMove::R,
            NotationMove::L => NotationMove::LPrime,
            NotationMove::L2 => NotationMove::L2,
            NotationMove::LPrime => NotationMove::L,
            NotationMove::F => NotationMove::FPrime,
            NotationMove::F2 => NotationMove::F2,
            NotationMove::FPrime => NotationMove::F,
            NotationMove::B => NotationMove::BPrime,
            NotationMove::B2 => NotationMove::B2,
            NotationMove::BPrime => NotationMove::B,
            NotationMove::UWide => NotationMove::UWidePrime,
            NotationMove::UWide2 => NotationMove::UWide2,
            NotationMove::UWidePrime => NotationMove::UWide,
            NotationMove::DWide => NotationMove::DWidePrime,
            NotationMove::DWide2 => NotationMove::DWide2,
            NotationMove::DWidePrime => NotationMove::DWide,
            NotationMove::RWide => NotationMove::RWidePrime,
            NotationMove::RWide2 => NotationMove::RWide2,
            NotationMove::RWidePrime => NotationMove::RWide,
            NotationMove::LWide => NotationMove::LWidePrime,
            NotationMove::LWide2 => NotationMove::LWide2,
            NotationMove::LWidePrime => NotationMove::LWide,
            NotationMove::FWide => NotationMove::FWidePrime,
            NotationMove::FWide2 => NotationMove::FWide2,
            NotationMove::FWidePrime => NotationMove::FWide,
            NotationMove::BWide => NotationMove::BWidePrime,
            NotationMove::BWide2 => NotationMove::BWide2,
            NotationMove::BWidePrime => NotationMove::BWide,
            NotationMove::M => NotationMove::MPrime,
            NotationMove::M2 => NotationMove::M2,
            NotationMove::MPrime => NotationMove::M,
            NotationMove::S => NotationMove::SPrime,
            NotationMove::S2 => NotationMove::S2,
            NotationMove::SPrime => NotationMove::S,
            NotationMove::E => NotationMove::EPrime,
            NotationMove::E2 => NotationMove::E2,
            NotationMove::EPrime => NotationMove::E,
            NotationMove::Noop => NotationMove::Noop,
        }
    }

    /// The half turn of the same layer.
    pub fn doubled(&self) -> (r: Self)
        ensures
            r == spec_doubled(*self),
    {
        match self {
            NotationMove::U => NotationMove::U2,
            NotationMove::U2 => NotationMove::U2,
            NotationMove::UPrime => NotationMove::U2,
            NotationMove::D => NotationMove::D2,
            NotationMove::D2 => NotationMove::D2,
            NotationMove::DPrime => NotationMove::D2,
            NotationMove::R => NotationMove::R2,
            NotationMove::R2 => NotationMove::R2,
            NotationMove::RPrime => NotationMove::R2,
            NotationMove::L => NotationMove::L2,
            NotationMove::L2 => NotationMove::L2,
            NotationMove::LPrime => NotationMove::L2,
            NotationMove::F => NotationMove::F2,
            NotationMove::F2 => NotationMove::F2,
            NotationMove::FPrime => NotationMove::F2,
            NotationMove::B => NotationMove::B2,
            NotationMove::B2 => NotationMove::B2,
            NotationMove::BPrime => NotationMove::B2,
            NotationMove::UWide => NotationMove::UWide2,
            NotationMove::UWide2 => NotationMove::UWide2,
            NotationMove::UWidePrime => NotationMove::UWide2,
            NotationMove::DWide => NotationMove::DWide2,
            NotationMove::DWide2 => NotationMove::DWide2,
            NotationMove::DWidePrime => NotationMove::DWide2,
            NotationMove::RWide => NotationMove::RWide2,
            NotationMove::RWide2 => NotationMove::RWide2,
            NotationMove::RWidePrime => NotationMove::RWide2,
            NotationMove::LWide => NotationMove::LWide2,
            NotationMove::LWide2 => NotationMove::LWide2,
            NotationMove::LWidePrime => NotationMove::LWide2,
            NotationMove::FWide => NotationMove::FWide2,
            NotationMove::FWide2 => NotationMove::FWide2,
            NotationMove::FWidePrime => NotationMove::FWide2,
            NotationMove::BWide => NotationMove::BWide2,
            NotationMove::BWide2 => NotationMove::BWide2,
            NotationMove::BWidePrime => NotationMove::BWide2,
            NotationMove::M => NotationMove::M2,
            NotationMove::M2 => NotationMove::M2,
            NotationMove::MPrime => NotationMove::M2,
            NotationMove::S => NotationMove::S2,
            NotationMove::S2 => NotationMove::S2,
            NotationMove::SPrime => NotationMove::S2,
            NotationMove::E => NotationMove::E2,
            NotationMove::E2 => NotationMove::E2,
            NotationMove::EPrime => NotationMove::E2,
            NotationMove::Noop => NotationMove::Noop,
        }
    }
}

/// Reads a whitespace-separated list of moves; the first word that is not a move
/// makes the whole read fail with that word's message.
pub fn parse_sequence(s: &str) -> (r: Result<Sequence, String>)
    ensures
        match r {
            Ok(v) => parse_words(words(s@)) == Ok::<Seq<NotationMove>, Seq<char>>(v@),
            Err(e) => parse_words(words(s@)) == Err::<Seq<NotationMove>, Seq<char>>(e@),
        },
{
    let chars = chars_of(s);
    let ws = split_words(&chars);
    let ghost wv = ws@.map_values(|w: Vec<char>| w@);
    let mut result: Vec<NotationMove> = Vec::new();
    let mut i: usize = 0;
    while i < ws.len()
        invariant
            i <= ws.len(),
            wv == ws@.map_values(|w: Vec<char>| w@),
            wv == words(s@),
            parse_words(wv.take(i as int)) == Ok::<Seq<NotationMove>, Seq<char>>(result@),
        decreases ws.len() - i,
    {
        assert(wv.take(i + 1).drop_last() =~= wv.take(i as int));
        assert(wv.take(i + 1).last() == ws@[i as int]@);
        match move_from_chars(&ws[i]) {
            Some(m) => {
                result.push(m);
            },
            None => {
                let e = unknown_move_error(&ws[i]);
                proof {
                    assert(parse_words(wv.take(i + 1)) == Err::<Seq<NotationMove>, Seq<char>>(e@));
                    lemma_parse_words_prefix_error(wv, (i + 1) as int);
                    assert(wv == words(s@));
                }
                return Err(e);
            },
        }
        i = i + 1;
    }
    assert(wv.take(ws.len() as int) =~= wv);
    Ok(result)
}

proof fn lemma_parse_words_prefix_error(ws: Seq<Seq<char>>, k: int)
    requires
        0 <= k <= ws.len(),
        parse_words(ws.take(k)) is Err,
    ensures
        parse_words(ws) == parse_words(ws.take(k)),
    decreases ws.len() - k,
{
    if k < ws.len() {
        assert(ws.take(k + 1).drop_last() =~= ws.take(k));
        lemma_parse_words_prefix_error(ws, k + 1);
    } else {
        assert(ws.take(k) =~= ws);
    }
}

/// The moves written out and separated by single spaces.
pub fn sequence_to_string(seq: &Sequence) -> (s: String)
    ensures
        s@ == sequence_text(seq@),
{
    let ghost texts = seq@.map_values(|m: NotationMove| move_text(m));
    let mut s = empty_string();
    let mut i: usize = 0;
    while i < seq.len()
        invariant
            i <= seq.len(),
            texts == seq@.map_values(|m: NotationMove| move_text(m)),
            s@ == join_words(texts.take(i as int)),
        decreases seq.len() - i,
    {
        assert(texts.take(i + 1).drop_last() =~= texts.take(i as int));
        if i > 0 {
            push_char(&mut s, ' ');
        }
        let t = seq[i].to_string();
        push_str(&mut s, t.as_str());
        i = i + 1;
        proof {
            if i == 1 {
                assert(texts.take(1) =~= seq![texts[0]]);
                assert(s@ =~= texts[0]);
            }
        }
    }
    assert(texts.take(seq.len() as int) =~= texts);
    s
}

/// The inverse sequence: reversed order, each move inverted.
pub fn reversed_sequence(seq: &Sequence) -> (r: Sequence)
    ensures
        r@ == spec_reversed_sequence(seq@),
{
    let mut r: Vec<NotationMove> = Vec::new();
    let n = seq.len();
    let mut i: usize = 0;
    while i < n
        invariant
            i <= n,
            n == seq.len(),
            r@.len() == i,
            forall|k: int| 0 <= k < i ==> r@[k] == spec_reversed(seq@[n - 1 - k]),
        decreases n - i,
    {
        r.push(seq[n - 1 - i].reversed());
        i = i + 1;
    }
    assert(r@ =~= spec_reversed_sequence(seq@));
    r
}

} // verus!
