//! Replacement candidates for a single move.
use vstd::prelude::*;
use crate::parser::move_parser::{move_parts, spec_doubled, NotationMove};

verus! {

/// A source of replacement candidates for a move.
pub trait NotationAlternativeGenerator {
    /// The candidates offered for `mv`, in order.
    spec fn spec_alternatives(&self, mv: NotationMove) -> Seq<NotationMove>;

    fn generate_alternatives(&self, mv: &NotationMove) -> (r: Vec<NotationMove>)
        ensures
            r@ == self.spec_alternatives(*mv),
    ;
}

/// The group of a move: for a face, its quarter turn, inverse, half turn and the
/// same three wide; for a slice, its turn, inverse and half turn; nothing for `Noop`.
pub open spec fn move_group(mv: NotationMove) -> Seq<NotationMove> {
    match mv {
        NotationMove::U | NotationMove::U2 | NotationMove::UPrime | NotationMove::UWide | NotationMove::UWide2 | NotationMove::UWidePrime => seq![NotationMove::U, NotationMove::UPrime, NotationMove::U2, NotationMove::UWide, NotationMove::UWidePrime, NotationMove::UWide2],
        NotationMove::D | NotationMove::D2 | NotationMove::DPrime | NotationMove::DWide | NotationMove::DWide2 | NotationMove::DWidePrime => seq![NotationMove::D, NotationMove::DPrime, NotationMove::D2, NotationMove::DWide, NotationMove::DWidePrime, NotationMove::DWide2],
        NotationMove::L | NotationMove::L2 | NotationMove::LPrime | NotationMove::LWide | NotationMove::LWide2 | NotationMove::LWidePrime => seq![NotationMove::L, NotationMove::LPrime, NotationMove::L2, NotationMove::LWide, NotationMove::LWidePrime, NotationMove::LWide2],
        NotationMove::R | NotationMove::R2 | NotationMove::RPrime | NotationMove::RWide | NotationMove::RWide2 | NotationMove::RWidePrime => seq![NotationMove::R, NotationMove::RPrime, NotationMove::R2, NotationMove::RWide, NotationMove::RWidePrime, NotationMove::RWide2],
        NotationMove::F | NotationMove::F2 | NotationMove::FPrime | NotationMove::FWide | NotationMove::FWide2 | NotationMove::FWidePrime => seq![NotationMove::F, NotationMove::FPrime, NotationMove::F2, NotationMove::FWide, NotationMove::FWidePrime, NotationMove::FWide2],
        NotationMove::B | NotationMove::B2 | NotationMove::BPrime | NotationMove::BWide | NotationMove::BWide2 | NotationMove::BWidePrime => seq![NotationMove::B, NotationMove::BPrime, NotationMove::B2, NotationMove::BWide, NotationMove::BWidePrime, NotationMove::BWide2],
        NotationMove::M | NotationMove::M2 | NotationMove::MPrime => seq![NotationMove::M, NotationMove::MPrime, NotationMove::M2],
        NotationMove::S | NotationMove::S2 | NotationMove::SPrime => seq![NotationMove::S, NotationMove::SPrime, NotationMove::S2],
        NotationMove::E | NotationMove::E2 | NotationMove::EPrime => seq![NotationMove::E, NotationMove::EPrime, NotationMove::E2],
        NotationMove::Noop => Seq::empty(),
    }
}

/// The test "differs from `mv`".
pub open spec fn move_differs(mv: NotationMove) -> spec_fn(NotationMove) -> bool {
    |c: NotationMove| c != mv
}

/// Offers the other moves of the same group.
pub struct SameGroupAlternativeGenerator;

impl SameGroupAlternativeGenerator {
    pub fn new() -> (r: Self)
        ensures
            r == SameGroupAlternativeGenerator,
    {
        SameGroupAlternativeGenerator
    }

    /// The group of `mv` (see [`move_group`]).
    fn get_group_alternatives(&self, mv: &NotationMove) -> (r: Vec<NotationMove>)
        ensures
            r@ == move_group(*mv),
    {
        let r = match mv {
            NotationMove::U | NotationMove::U2 | NotationMove::UPrime | NotationMove::UWide | NotationMove::UWide2 | NotationMove::UWidePrime => vec![NotationMove::U, NotationMove::UPrime, NotationMove::U2, NotationMove::UWide, NotationMove::UWidePrime, NotationMove::UWide2],
            NotationMove::D | NotationMove::D2 | NotationMove::DPrime | NotationMove::DWide | NotationMove::DWide2 | NotationMove::DWidePrime => vec![NotationMove::D, NotationMove::DPrime, NotationMove::D2, NotationMove::DWide, NotationMove::DWidePrime, NotationMove::DWide2],
            NotationMove::L | NotationMove::L2 | NotationMove::LPrime | NotationMove::LWide | NotationMove::LWide2 | NotationMove::LWidePrime => vec![NotationMove::L, NotationMove::LPrime, NotationMove::L2, NotationMove::LWide, NotationMove::LWidePrime, NotationMove::LWide2],
            NotationMove::R | NotationMove::R2 | NotationMove::RPrime | NotationMove::RWide | NotationMove::RWide2 | NotationMove::RWidePrime => vec![NotationMove::R, NotationMove::RPrime, NotationMove::R2, NotationMove::RWide, NotationMove::RWidePrime, NotationMove::RWide2],
            NotationMove::F | NotationMove::F2 | NotationMove::FPrime | NotationMove::FWide | NotationMove::FWide2 | NotationMove::FWidePrime => vec![NotationMove::F, NotationMove::FPrime, NotationMove::F2, NotationMove::FWide, NotationMove::FWidePrime, NotationMove::FWide2],
            NotationMove::B | NotationMove::B2 | NotationMove::BPrime | NotationMove::BWide | NotationMove::BWide2 | NotationMove::BWidePrime => vec![NotationMove::B, NotationMove::BPrime, NotationMove::B2, NotationMove::BWide, NotationMove::BWidePrime, NotationMove::BWide2],
            NotationMove::M | NotationMove::M2 | NotationMove::MPrime => vec![NotationMove::M, NotationMove::MPrime, NotationMove::M2],
            NotationMove::S | NotationMove::S2 | NotationMove::SPrime => vec![NotationMove::S, NotationMove::SPrime, NotationMove::S2],
            NotationMove::E | NotationMove::E2 | NotationMove::EPrime => vec![NotationMove::E, NotationMove::EPrime, NotationMove::E2],
            NotationMove::Noop => Vec::new(),
        };
        assert(r@ =~= move_group(*mv));
        r
    }
}

impl NotationAlternativeGenerator for SameGroupAlternativeGenerator {
    open spec fn spec_alternatives(&self, mv: NotationMove) -> Seq<NotationMove> {
        move_group(mv).filter(move_differs(mv))
    }

    fn generate_alternatives(&self, mv: &NotationMove) -> (r: Vec<NotationMove>) {
        let group = self.get_group_alternatives(mv);
        let ghost g = group@;
        let mut r: Vec<NotationMove> = Vec::new();
        let mut k: usize = 0;
        while k < group.len()
            invariant
                k <= group.len(),
                g == group@,
                g == move_group(*mv),
                r@ == g.take(k as int).filter(move_differs(*mv)),
            decreases group.len() - k,
        {
            proof {
                reveal_with_fuel(Seq::filter, 1);
                assert(g.take(k + 1).drop_last() =~= g.take(k as int));
            }
            if group[k] != *mv {
                r.push(group[k]);
            }
            k = k + 1;
        }
        assert(g.take(group.len() as int) =~= g);
        r
    }
}

/// The moves turned about the face (or slice) with letter `c`, in group order.
spec fn letter_group(c: char) -> Seq<NotationMove> {
    if c == 'U' {
        move_group(NotationMove::U)
    } else if c == 'D' {
        move_group(NotationMove::D)
    } else if c == 'L' {
        move_group(NotationMove::L)
    } else if c == 'R' {
        move_group(NotationMove::R)
    } else if c == 'F' {
        move_group(NotationMove::F)
    } else if c == 'B' {
        move_group(NotationMove::B)
    } else if c == 'M' {
        move_group(NotationMove::M)
    } else if c == 'S' {
        move_group(NotationMove::S)
    } else if c == 'E' {
        move_group(NotationMove::E)
    } else {
        Seq::empty()
    }
}

proof fn lemma_group_by_letter(m: NotationMove)
    requires
        m != NotationMove::Noop,
    ensures
        move_group(m) == letter_group(move_parts(m).0),
        move_group(m).contains(m),
        move_group(m).no_duplicates(),
        forall|k: int|
            0 <= k < move_group(m).len() ==> #[trigger] move_group(m)[k] != NotationMove::Noop && move_parts(
                move_group(m)[k],
            ).0 == move_parts(m).0,
{
    let g = move_group(m);
    assert(g.len() > 0 && g[0] == m || g.len() > 1 && g[1] == m || g.len() > 2 && g[2] == m || g.len() > 3 && g[3]
        == m || g.len() > 4 && g[4] == m || g.len() > 5 && g[5] == m);
}

/// Keeping the items of a list without repeats gives a list without repeats.
pub proof fn lemma_filter_no_duplicates<A>(s: Seq<A>, p: spec_fn(A) -> bool)
    requires
        s.no_duplicates(),
    ensures
        s.filter(p).no_duplicates(),
    decreases s.len(),
{
    reveal(Seq::filter);
    if s.len() > 0 {
        let d = s.drop_last();
        assert(d.no_duplicates()) by {
            assert forall|i: int, j: int| 0 <= i < d.len() && 0 <= j < d.len() && i != j implies d[i] != d[j] by {
                assert(d[i] == s[i] && d[j] == s[j]);
            }
        }
        lemma_filter_no_duplicates(d, p);
        let f = d.filter(p);
        if p(s.last()) {
            if f.contains(s.last()) {
                d.lemma_filter_contains_rev(p, s.last());
                let k = choose|k: int| 0 <= k < d.len() && d[k] == s.last();
                assert(s[k] == s[s.len() - 1]);
            }
            let r = f.push(s.last());
            assert forall|i: int, j: int| 0 <= i < r.len() && 0 <= j < r.len() && i != j implies r[i] != r[j] by {
                if i < f.len() && j < f.len() {
                    assert(r[i] == f[i] && r[j] == f[j]);
                } else if i < f.len() {
                    assert(r[i] == f[i]);
                } else {
                    assert(r[j] == f[j]);
                }
            }
        }
    }
}

/// Leaving out one item that a list without repeats holds shortens it by one.
pub proof fn lemma_filter_out_one(s: Seq<NotationMove>, x: NotationMove)
    requires
        s.no_duplicates(),
    ensures
        s.filter(move_differs(x)).len() == if s.contains(x) { s.len() - 1 } else { s.len() as int },
    decreases s.len(),
{
    reveal(Seq::filter);
    if s.len() > 0 {
        let d = s.drop_last();
        assert(d.no_duplicates()) by {
            assert forall|i: int, j: int| 0 <= i < d.len() && 0 <= j < d.len() && i != j implies d[i] != d[j] by {
                assert(d[i] == s[i] && d[j] == s[j]);
            }
        }
        lemma_filter_out_one(d, x);
        if s.last() == x {
            if d.contains(x) {
                let k = choose|k: int| 0 <= k < d.len() && d[k] == x;
                assert(s[k] == s[s.len() - 1]);
            }
            assert(s.contains(x)) by {
                assert(s[s.len() - 1] == x);
            }
        } else {
            if d.contains(x) {
                let k = choose|k: int| 0 <= k < d.len() && d[k] == x;
                assert(s[k] == x);
            }
            if s.contains(x) {
                let k = choose|k: int| 0 <= k < s.len() && s[k] == x;
                assert(d[k] == x);
            }
        }
    }
}

/// The alternatives of a move are exactly the other moves written with the same
/// face (or slice) letter: its other quarter, inverse and half turns and the
/// wide turns of the same face; each offered once, and none for `Noop`.
pub proof fn lemma_same_group_alternatives(m: NotationMove)
    ensures
        forall|a: NotationMove|
            SameGroupAlternativeGenerator.spec_alternatives(m).contains(a) <==> (a != m && a != NotationMove::Noop && m
                != NotationMove::Noop && move_parts(a).0 == move_parts(m).0),
        SameGroupAlternativeGenerator.spec_alternatives(m).no_duplicates(),
        m != spec_doubled(m) ==> SameGroupAlternativeGenerator.spec_alternatives(m).contains(spec_doubled(m)),
        SameGroupAlternativeGenerator.spec_alternatives(m).len() == if m == NotationMove::Noop {
            0int
        } else if move_parts(m).0 == 'M' || move_parts(m).0 == 'S' || move_parts(m).0 == 'E' {
            2int
        } else {
            5int
        },
{
    let g = move_group(m);
    let alts = g.filter(move_differs(m));
    assert(SameGroupAlternativeGenerator.spec_alternatives(m) == alts);
    if m == NotationMove::Noop {
        assert(g =~= Seq::<NotationMove>::empty());
        assert(alts =~= Seq::<NotationMove>::empty()) by {
            reveal(Seq::filter);
        }
    } else {
        lemma_group_by_letter(m);
        lemma_filter_no_duplicates(g, move_differs(m));
        assert forall|a: NotationMove| alts.contains(a) <==> (a != m && a != NotationMove::Noop && m
            != NotationMove::Noop && move_parts(a).0 == move_parts(m).0) by {
            if alts.contains(a) {
                g.lemma_filter_contains_rev(move_differs(m), a);
                let j = choose|j: int| 0 <= j < alts.len() && alts[j] == a;
                g.lemma_filter_pred(move_differs(m), j);
                let k = choose|k: int| 0 <= k < g.len() && g[k] == a;
                assert(g[k] != NotationMove::Noop);
            }
            if a != m && a != NotationMove::Noop && move_parts(a).0 == move_parts(m).0 {
                lemma_group_by_letter(a);
                assert(move_group(a) == g);
                let k = choose|k: int| 0 <= k < g.len() && g[k] == a;
                g.lemma_filter_contains(move_differs(m), k);
            }
        }
        lemma_filter_out_one(g, m);
        let dm = spec_doubled(m);
        assert(dm != NotationMove::Noop && move_parts(dm).0 == move_parts(m).0);
    }
}

impl Default for SameGroupAlternativeGenerator {
    fn default() -> (r: Self)
        ensures
            r == SameGroupAlternativeGenerator,
    {
        SameGroupAlternativeGenerator::new()
    }
}

} // verus!
