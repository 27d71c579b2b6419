use vstd::prelude::*;
use crate::text::{bytes_debug, empty_string, push_bytes_debug, push_str};

verus! {

/// A cube state given as piece permutations and orientations.
///
/// `cp[i]` is the corner that sits in corner slot `i`, `co[i]` its twist (0..=2);
/// `ep[i]` is the edge in edge slot `i`, `eo[i]` its flip (0..=1).
#[derive(Debug, Clone, Copy, Eq, Hash)]
pub struct State {
    pub cp: [u8; 8],
    pub co: [u8; 8],
    pub ep: [u8; 12],
    pub eo: [u8; 12],
}

/// The mathematical content of a [`State`]: its four arrays as sequences.
#[verifier::ext_equal]
pub struct StateView {
    pub cp: Seq<u8>,
    pub co: Seq<u8>,
    pub ep: Seq<u8>,
    pub eo: Seq<u8>,
}

impl View for State {
    type V = StateView;

    open spec fn view(&self) -> StateView {
        StateView { cp: self.cp@, co: self.co@, ep: self.ep@, eo: self.eo@ }
    }
}

/// Which slots a partial comparison looks at: a slot whose entry is 1 must hold
/// its own piece with orientation 0; every other entry means "don't care".
#[derive(Debug, Clone, Copy, PartialEq)]
pub struct PartialStatePattern {
    pub desired_edge: [u8; 12],
    pub desired_corner: [u8; 8],
}

/// The text of a state: its four arrays in `Debug` form on labelled lines.
pub open spec fn state_text(v: StateView) -> Seq<char> {
    "Corner Permutation: "@ + bytes_debug(v.cp) + "\n"@ + "Corner Orientation: "@ + bytes_debug(v.co) + "\n"@
        + "Edge Permutation:   "@ + bytes_debug(v.ep) + "\n"@ + "Edge Orientation:   "@ + bytes_debug(v.eo)
}

/// The identity permutation of length `n` as a sequence of bytes.
pub open spec fn identity_seq(n: nat) -> Seq<u8> {
    Seq::new(n, |i: int| i as u8)
}

/// The sequence of `n` zeros.
pub open spec fn zero_seq(n: nat) -> Seq<u8> {
    Seq::new(n, |i: int| 0u8)
}

/// The solved cube.
pub open spec fn solved_view() -> StateView {
    StateView { cp: identity_seq(8), co: zero_seq(8), ep: identity_seq(12), eo: zero_seq(12) }
}

/// Every value of `s` is below `bound`.
pub open spec fn all_below(s: Seq<u8>, bound: int) -> bool {
    forall|i: int| 0 <= i < s.len() ==> #[trigger] s[i] < bound
}

/// The values of `s` are distinct and all below `s.len()`: a permutation of `0..s.len()`.
pub open spec fn is_permutation(s: Seq<u8>) -> bool {
    &&& all_below(s, s.len() as int)
    &&& forall|i: int, j: int| 0 <= i < s.len() && 0 <= j < s.len() && i != j ==> #[trigger] s[i] != #[trigger] s[j]
}

impl StateView {
    /// Orientations are in range: corner twists below 3, edge flips below 2.
    pub open spec fn orientations_valid(self) -> bool {
        all_below(self.co, 3) && all_below(self.eo, 2)
    }

    /// Piece indices are in range (corners below 8, edges below 12).
    pub open spec fn indices_in_range(self) -> bool {
        all_below(self.cp, 8) && all_below(self.ep, 12)
    }

    /// A state reachable in the model: permutations and in-range orientations.
    pub open spec fn is_valid(self) -> bool {
        &&& is_permutation(self.cp)
        &&& is_permutation(self.ep)
        &&& self.orientations_valid()
    }

    /// The composition "first `self`, then the move `m`".
    ///
    /// Slot `i` receives the piece that `m` takes from slot `m.cp[i]`, and the
    /// orientation of that piece is increased by `m.co[i]` (modulo 3; edges modulo 2).
    pub open spec fn followed_by(self, m: StateView) -> StateView {
        StateView {
            cp: Seq::new(8, |i: int| self.cp[m.cp[i] as int]),
            co: Seq::new(8, |i: int| ((self.co[m.cp[i] as int] + m.co[i]) % 3) as u8),
            ep: Seq::new(12, |i: int| self.ep[m.ep[i] as int]),
            eo: Seq::new(12, |i: int| ((self.eo[m.ep[i] as int] + m.eo[i]) % 2) as u8),
        }
    }

    /// The orientation sums that composing with `m` computes fit in a byte.
    pub open spec fn move_sums_fit(self, m: StateView) -> bool {
        &&& forall|i: int| 0 <= i < 8 ==> self.co[#[trigger] m.cp[i] as int] + m.co[i] <= 255
        &&& forall|i: int| 0 <= i < 12 ==> self.eo[#[trigger] m.ep[i] as int] + m.eo[i] <= 255
    }

    /// Every slot marked by the pattern holds its own piece, unrotated.
    pub open spec fn matches_pattern(self, desired_edge: Seq<u8>, desired_corner: Seq<u8>) -> bool {
        &&& forall|i: int| 0 <= i < 12 && desired_edge[i] == 1 ==> self.ep[i] == i && self.eo[i] == 0
        &&& forall|i: int| 0 <= i < 8 && desired_corner[i] == 1 ==> self.cp[i] == i && self.co[i] == 0
    }
}

/// The solved cube matches every pattern.
pub proof fn lemma_solved_matches_every_pattern(desired_edge: Seq<u8>, desired_corner: Seq<u8>)
    ensures
        solved_view().matches_pattern(desired_edge, desired_corner),
{
}

/// Whether two byte sequences agree on their first `n` entries.
fn bytes_agree<const N: usize>(a: &[u8; N], b: &[u8; N]) -> (r: bool)
    ensures
        r == (a@ == b@),
{
    let mut i: usize = 0;
    while i < N
        invariant
            i <= N,
            a@.len() == N,
            b@.len() == N,
            forall|k: int| 0 <= k < i ==> a@[k] == b@[k],
        decreases N - i,
    {
        if a[i] != b[i] {
            return false;
        }
        i = i + 1;
    }
    assert(a@ =~= b@);
    true
}

impl PartialEq for State {
    fn eq(&self, other: &State) -> (r: bool) {
        bytes_agree(&self.cp, &other.cp) && bytes_agree(&self.co, &other.co) && bytes_agree(
            &self.ep,
            &other.ep,
        ) && bytes_agree(&self.eo, &other.eo)
    }
}

impl vstd::std_specs::cmp::PartialEqSpecImpl for State {
    open spec fn obeys_eq_spec() -> bool {
        true
    }

    open spec fn eq_spec(&self, other: &State) -> bool {
        self@ == other@
    }
}

/// Two states are equal exactly when their views are.
pub proof fn lemma_state_eq_view(a: State, b: State)
    ensures
        (a == b) <==> (a@ == b@),
{
    if a@ == b@ {
        assert(a.cp =~= b.cp);
        assert(a.co =~= b.co);
        assert(a.ep =~= b.ep);
        assert(a.eo =~= b.eo);
    }
}

impl State {
    pub fn new(cp: [u8; 8], co: [u8; 8], ep: [u8; 12], eo: [u8; 12]) -> (s: Self)
        ensures
            s.cp == cp,
            s.co == co,
            s.ep == ep,
            s.eo == eo,
    {
        State { cp, co, ep, eo }
    }

    pub fn solved() -> (s: Self)
        ensures
            s@ == solved_view(),
    {
        let s = State {
            cp: [0, 1, 2, 3, 4, 5, 6, 7],
            co: [0, 0, 0, 0, 0, 0, 0, 0],
            ep: [0, 1, 2, 3, 4, 5, 6, 7, 8, 9, 10, 11],
            eo: [0, 0, 0, 0, 0, 0, 0, 0, 0, 0, 0, 0],
        };
        assert(s@ =~= solved_view());
        s
    }

    /// Applies `move_state` after `self`; see [`StateView::then`].
    pub fn apply_move(&self, move_state: &State) -> (r: State)
        requires
            move_state@.indices_in_range(),
            self@.move_sums_fit(move_state@),
        ensures
            r@ == self@.followed_by(move_state@),
    {
        let mut new_cp = [0u8; 8];
        let mut new_co = [0u8; 8];
        let mut new_ep = [0u8; 12];
        let mut new_eo = [0u8; 12];
        let ghost target = self@.followed_by(move_state@);
        let mut i: usize = 0;
        while i < 8
            invariant
                i <= 8,
                move_state@.indices_in_range(),
                self@.move_sums_fit(move_state@),
                target == self@.followed_by(move_state@),
                forall|k: int| 0 <= k < i ==> new_cp[k] == target.cp[k] && new_co[k] == target.co[k],
            decreases 8 - i,
        {
            let p = move_state.cp[i] as usize;
            new_cp[i] = self.cp[p];
            new_co[i] = (self.co[p] + move_state.co[i]) % 3;
            i = i + 1;
        }
        let mut j: usize = 0;
        while j < 12
            invariant
                j <= 12,
                move_state@.indices_in_range(),
                self@.move_sums_fit(move_state@),
                target == self@.followed_by(move_state@),
                forall|k: int| 0 <= k < j ==> new_ep[k] == target.ep[k] && new_eo[k] == target.eo[k],
            decreases 12 - j,
        {
            let p = move_state.ep[j] as usize;
            new_ep[j] = self.ep[p];
            new_eo[j] = (self.eo[p] + move_state.eo[j]) % 2;
            j = j + 1;
        }
        let r = State::new(new_cp, new_co, new_ep, new_eo);
        assert(r@ =~= target);
        r
    }

    pub fn is_solved(&self) -> (b: bool)
        ensures
            b == (self@ == solved_view()),
    {
        let solved = State::solved();
        *self == solved
    }

    /// Four labelled lines listing the permutations and orientations (see [`state_text`]).
    pub fn to_display_string(&self) -> (s: String)
        ensures
            s@ == state_text(self@),
    {
        let mut s = empty_string();
        push_str(&mut s, "Corner Permutation: ");
        push_bytes_debug(&mut s, self.cp.as_slice());
        push_str(&mut s, "\n");
        push_str(&mut s, "Corner Orientation: ");
        push_bytes_debug(&mut s, self.co.as_slice());
        push_str(&mut s, "\n");
        push_str(&mut s, "Edge Permutation:   ");
        push_bytes_debug(&mut s, self.ep.as_slice());
        push_str(&mut s, "\n");
        push_str(&mut s, "Edge Orientation:   ");
        push_bytes_debug(&mut s, self.eo.as_slice());
        s
    }

    /// Checks the slots that the pattern marks with 1; see [`StateView::matches_pattern`].
    pub fn matches_partial_pattern(&self, pattern: &PartialStatePattern) -> (b: bool)
        ensures
            b == self@.matches_pattern(pattern.desired_edge@, pattern.desired_corner@),
    {
        let mut i: usize = 0;
        while i < 12
            invariant
                i <= 12,
                forall|k: int| 0 <= k < i && pattern.desired_edge[k] == 1 ==> self.ep[k] == k && self.eo[k] == 0,
            decreases 12 - i,
        {
            if pattern.desired_edge[i] == 1 {
                if self.ep[i] != i as u8 {
                    return false;
                }
                if self.eo[i] != 0 {
                    return false;
                }
            }
            i = i + 1;
        }
        let mut j: usize = 0;
        while j < 8
            invariant
                j <= 8,
                forall|k: int| 0 <= k < 12 && pattern.desired_edge[k] == 1 ==> self.ep[k] == k && self.eo[k] == 0,
                forall|k: int| 0 <= k < j && pattern.desired_corner[k] == 1 ==> self.cp[k] == k && self.co[k] == 0,
            decreases 8 - j,
        {
            if pattern.desired_corner[j] == 1 {
                if self.cp[j] != j as u8 {
                    return false;
                }
                if self.co[j] != 0 {
                    return false;
                }
            }
            j = j + 1;
        }
        true
    }
}

impl PartialStatePattern {
    pub fn new(desired_edge: [u8; 12], desired_corner: [u8; 8]) -> (p: Self)
        ensures
            p.desired_edge == desired_edge,
            p.desired_corner == desired_corner,
    {
        PartialStatePattern { desired_edge, desired_corner }
    }

    /// Corner slots 0..4 and edge slots 0..4.
    pub fn top_face_solved() -> (p: Self)
        ensures
            p.desired_edge@ == seq![1u8, 1, 1, 1, 0, 0, 0, 0, 0, 0, 0, 0],
            p.desired_corner@ == seq![1u8, 1, 1, 1, 0, 0, 0, 0],
    {
        let p = PartialStatePattern {
            desired_edge: [1, 1, 1, 1, 0, 0, 0, 0, 0, 0, 0, 0],
            desired_corner: [1, 1, 1, 1, 0, 0, 0, 0],
        };
        assert(p.desired_edge@ =~= seq![1u8, 1, 1, 1, 0, 0, 0, 0, 0, 0, 0, 0]);
        assert(p.desired_corner@ =~= seq![1u8, 1, 1, 1, 0, 0, 0, 0]);
        p
    }

    /// Corner slots 4..8 and edge slots 4..8.
    pub fn bottom_face_solved() -> (p: Self)
        ensures
            p.desired_edge@ == seq![0u8, 0, 0, 0, 1, 1, 1, 1, 0, 0, 0, 0],
            p.desired_corner@ == seq![0u8, 0, 0, 0, 1, 1, 1, 1],
    {
        let p = PartialStatePattern {
            desired_edge: [0, 0, 0, 0, 1, 1, 1, 1, 0, 0, 0, 0],
            desired_corner: [0, 0, 0, 0, 1, 1, 1, 1],
        };
        assert(p.desired_edge@ =~= seq![0u8, 0, 0, 0, 1, 1, 1, 1, 0, 0, 0, 0]);
        assert(p.desired_corner@ =~= seq![0u8, 0, 0, 0, 1, 1, 1, 1]);
        p
    }

    /// First two layers: corner slots 0..4, edge slots 0..4 and 8..12.
    pub fn f2l_solved() -> (p: Self)
        ensures
            p.desired_edge@ == seq![1u8, 1, 1, 1, 0, 0, 0, 0, 1, 1, 1, 1],
            p.desired_corner@ == seq![1u8, 1, 1, 1, 0, 0, 0, 0],
    {
        let p = PartialStatePattern {
            desired_edge: [1, 1, 1, 1, 0, 0, 0, 0, 1, 1, 1, 1],
            desired_corner: [1, 1, 1, 1, 0, 0, 0, 0],
        };
        assert(p.desired_edge@ =~= seq![1u8, 1, 1, 1, 0, 0, 0, 0, 1, 1, 1, 1]);
        assert(p.desired_corner@ =~= seq![1u8, 1, 1, 1, 0, 0, 0, 0]);
        p
    }
}

} // verus!
