//! Membership facts about short sequences, used by the detectors' run-level
//! laws.
use vstd::prelude::*;

verus! {

/// Membership in a concatenation of three sequences.
pub proof fn lemma_contains_concat3<A>(a: Seq<A>, b: Seq<A>, c: Seq<A>, g: A)
    ensures
        (a + b + c).contains(g) <==> (a.contains(g) || b.contains(g) || c.contains(g)),
{
    let e = a + b + c;
    if e.contains(g) {
        let i = choose|i: int| 0 <= i < e.len() && e[i] == g;
        if i < a.len() {
            assert(a[i] == g);
        } else if i < a.len() + b.len() {
            assert(b[i - a.len()] == g);
        } else {
            assert(c[i - a.len() - b.len()] == g);
        }
    }
    if a.contains(g) {
        let i = choose|i: int| 0 <= i < a.len() && a[i] == g;
        assert(e[i] == g);
    }
    if b.contains(g) {
        let i = choose|i: int| 0 <= i < b.len() && b[i] == g;
        assert(e[i + a.len()] == g);
    }
    if c.contains(g) {
        let i = choose|i: int| 0 <= i < c.len() && c[i] == g;
        assert(e[i + a.len() + b.len()] == g);
    }
}

/// Membership in a concatenation of two sequences.
pub proof fn lemma_contains_concat2<A>(a: Seq<A>, b: Seq<A>, g: A)
    ensures
        (a + b).contains(g) <==> (a.contains(g) || b.contains(g)),
{
    let e = a + b;
    if e.contains(g) {
        let i = choose|i: int| 0 <= i < e.len() && e[i] == g;
        if i < a.len() {
            assert(a[i] == g);
        } else {
            assert(b[i - a.len()] == g);
        }
    }
    if a.contains(g) {
        let i = choose|i: int| 0 <= i < a.len() && a[i] == g;
        assert(e[i] == g);
    }
    if b.contains(g) {
        let i = choose|i: int| 0 <= i < b.len() && b[i] == g;
        assert(e[i + a.len()] == g);
    }
}

/// A one-element sequence holds exactly its element; the empty sequence
/// holds nothing.
pub proof fn lemma_contains_single<A>(x: A, g: A)
    ensures
        seq![x].contains(g) <==> x == g,
        !Seq::<A>::empty().contains(g),
{
    if x == g {
        assert(seq![x][0] == g);
    }
}

} // verus!
