//! Searching lines of code for the path patterns of the pruner. A pattern
//! is written in the usual regular-expression notation, restricted to what
//! the patterns use: literal characters, `\` before a character that stands
//! for itself, `.` for any character, and `*` after either for any number of
//! repetitions. A pattern is found in a line when it matches some part of it.

use vstd::prelude::*;

verus! {

/// What one position of a pattern accepts.
#[derive(Debug, Clone, Copy, PartialEq, Eq, Structural)]
pub enum AtomKind {
    /// This character
    Lit(char),
    /// Any character
    Any,
}

/// One position of a pattern, possibly repeated.
#[derive(Debug, Clone, Copy, PartialEq, Eq, Structural)]
pub struct Atom {
    pub kind: AtomKind,
    pub star: bool,
}

/// Whether `k` accepts `c`.
pub open spec fn accepts(k: AtomKind, c: char) -> bool {
    match k {
        AtomKind::Lit(x) => x == c,
        AtomKind::Any => true,
    }
}

/// The position that starts the (nonempty) pattern text, and how many
/// characters spell it.
pub open spec fn first_atom(p: Seq<char>) -> (AtomKind, nat) {
    if p[0] == '\\' && p.len() >= 2 {
        (AtomKind::Lit(p[1]), 2)
    } else if p[0] == '.' {
        (AtomKind::Any, 1)
    } else {
        (AtomKind::Lit(p[0]), 1)
    }
}

/// How many characters the first position takes, its star included.
pub open spec fn first_width(p: Seq<char>) -> nat {
    let n = first_atom(p).1;
    if n < p.len() && p[n as int] == '*' { n + 1 } else { n }
}

/// The positions that the pattern text spells.
pub open spec fn parse_pattern(p: Seq<char>) -> Seq<Atom>
    decreases p.len(),
{
    if p.len() == 0 {
        Seq::empty()
    } else {
        let n = first_atom(p).1;
        let a = Atom { kind: first_atom(p).0, star: n < p.len() && p[n as int] == '*' };
        seq![a] + parse_pattern(p.skip(first_width(p) as int))
    }
}

/// Whether the positions `atoms` match some prefix of `s`.
pub open spec fn prefix_match(atoms: Seq<Atom>, s: Seq<char>) -> bool
    decreases atoms.len(), s.len(),
{
    if atoms.len() == 0 {
        true
    } else if !atoms[0].star {
        s.len() > 0 && accepts(atoms[0].kind, s[0]) && prefix_match(atoms.drop_first(), s.drop_first())
    } else {
        prefix_match(atoms.drop_first(), s) || (s.len() > 0 && accepts(atoms[0].kind, s[0])
            && prefix_match(atoms, s.drop_first()))
    }
}

/// Whether the pattern text `pat` matches some part of `line`.
pub open spec fn pattern_found(line: Seq<char>, pat: Seq<char>) -> bool {
    exists|i: int| 0 <= i <= line.len() && #[trigger] prefix_match(parse_pattern(pat), line.skip(i))
}

/// The positions that the pattern text spells.
pub fn parse(p: &Vec<char>) -> (r: Vec<Atom>)
    ensures
        r@ == parse_pattern(p@),
{
    let n = p.len();
    let mut r: Vec<Atom> = Vec::new();
    let mut i: usize = 0;
    assert(p@.skip(0) =~= p@);
    assert(r@ + parse_pattern(p@.skip(0)) =~= parse_pattern(p@));
    while i < n
        invariant
            i <= n,
            n == p@.len(),
            r@ + parse_pattern(p@.skip(i as int)) == parse_pattern(p@),
        decreases n - i,
    {
        let ghost q = p@.skip(i as int);
        let (kind, w): (AtomKind, usize) = if p[i] == '\\' && i + 1 < n {
            (AtomKind::Lit(p[i + 1]), 2)
        } else if p[i] == '.' {
            (AtomKind::Any, 1)
        } else {
            (AtomKind::Lit(p[i]), 1)
        };
        assert(q[0] == p@[i as int]);
        assert(q.len() >= 2 ==> q[1] == p@[i + 1]);
        assert(first_atom(q) == (kind, w as nat));
        let star = i + w < n && p[i + w] == '*';
        assert(i + w < n ==> q[w as int] == p@[i + w]);
        let a = Atom { kind, star };
        let used: usize = if star { w + 1 } else { w };
        assert(used == first_width(q));
        assert(q.skip(used as int) =~= p@.skip((i + used) as int));
        r.push(a);
        assert(r@ + parse_pattern(p@.skip((i + used) as int)) =~= (r@.drop_last() + parse_pattern(q)));
        i = i + used;
    }
    assert(p@.skip(n as int) =~= Seq::<char>::empty());
    assert(r@ + Seq::<Atom>::empty() =~= r@);
    r
}

/// Whether `k` accepts `c`.
fn accepts_char(k: AtomKind, c: char) -> (r: bool)
    ensures
        r == accepts(k, c),
{
    match k {
        AtomKind::Lit(x) => x == c,
        AtomKind::Any => true,
    }
}

/// Whether the positions from `ai` on match some prefix of `s` from `si` on.
fn match_from(atoms: &Vec<Atom>, ai: usize, s: &Vec<char>, si: usize) -> (r: bool)
    requires
        ai <= atoms@.len(),
        si <= s@.len(),
    ensures
        r == prefix_match(atoms@.skip(ai as int), s@.skip(si as int)),
    decreases atoms@.len() - ai, s@.len() - si,
{
    let ghost a = atoms@.skip(ai as int);
    let ghost t = s@.skip(si as int);
    if ai == atoms.len() {
        assert(a.len() == 0);
        return true;
    }
    assert(a[0] == atoms@[ai as int]);
    assert(a.drop_first() =~= atoms@.skip(ai + 1));
    assert(si < s@.len() ==> t[0] == s@[si as int]);
    assert(si < s@.len() ==> t.drop_first() =~= s@.skip(si + 1));
    let at = atoms[ai];
    if !at.star {
        if si < s.len() && accepts_char(at.kind, s[si]) {
            match_from(atoms, ai + 1, s, si + 1)
        } else {
            false
        }
    } else {
        if match_from(atoms, ai + 1, s, si) {
            true
        } else if si < s.len() && accepts_char(at.kind, s[si]) {
            match_from(atoms, ai, s, si + 1)
        } else {
            false
        }
    }
}

/// Whether the pattern text `pat` matches some part of `line`.
pub fn find_pattern(line: &Vec<char>, pat: &Vec<char>) -> (r: bool)
    ensures
        r == pattern_found(line@, pat@),
{
    let atoms = parse(pat);
    assert(atoms@.skip(0) =~= atoms@);
    let n = line.len();
    let mut i: usize = 0;
    while i < n
        invariant
            i <= n,
            n == line@.len(),
            atoms@.skip(0) == parse_pattern(pat@),
            forall|j: int| 0 <= j < i ==> !#[trigger] prefix_match(parse_pattern(pat@), line@.skip(j)),
        decreases n - i,
    {
        if match_from(&atoms, 0, line, i) {
            assert(prefix_match(parse_pattern(pat@), line@.skip(i as int)));
            return true;
        }
        i = i + 1;
    }
    let found = match_from(&atoms, 0, line, n);
    if found {
        assert(prefix_match(parse_pattern(pat@), line@.skip(n as int)));
    } else {
        assert forall|j: int| 0 <= j <= line@.len() implies !#[trigger] prefix_match(parse_pattern(pat@), line@.skip(j)) by {
            if j == n {
            }
        }
    }
    found
}

} // verus!
