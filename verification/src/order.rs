//! Lexicographic order on sequences.
use vstd::prelude::*;
use crate::text::to_chars;

verus! {

/// Whether `a` stands before `b` in lexicographic order: at the first place
/// where they differ `a` is smaller, or `a` ends there.
pub open spec fn lex_before(a: Seq<int>, b: Seq<int>) -> bool
    decreases a.len(),
{
    if b.len() == 0 {
        false
    } else if a.len() == 0 {
        true
    } else if a[0] != b[0] {
        a[0] < b[0]
    } else {
        lex_before(a.drop_first(), b.drop_first())
    }
}

/// A sequence of numbers as mathematical integers.
pub open spec fn ints(s: Seq<u32>) -> Seq<int> {
    s.map_values(|n: u32| n as int)
}

/// The code points of a text.
pub open spec fn code_points(s: Seq<char>) -> Seq<int> {
    s.map_values(|c: char| c as int)
}

/// No sequence stands before itself.
pub proof fn lemma_lex_irreflexive(a: Seq<int>)
    ensures
        !lex_before(a, a),
    decreases a.len(),
{
    if a.len() > 0 {
        lemma_lex_irreflexive(a.drop_first());
    }
}

/// The order is transitive.
pub proof fn lemma_lex_transitive(a: Seq<int>, b: Seq<int>, c: Seq<int>)
    requires
        lex_before(a, b),
        lex_before(b, c),
    ensures
        lex_before(a, c),
    decreases a.len(),
{
    if a.len() > 0 && a[0] == b[0] && b[0] == c[0] {
        lemma_lex_transitive(a.drop_first(), b.drop_first(), c.drop_first());
    }
}

/// Of two different sequences one stands before the other.
pub proof fn lemma_lex_total(a: Seq<int>, b: Seq<int>)
    ensures
        a == b || lex_before(a, b) || lex_before(b, a),
    decreases a.len(),
{
    if a.len() > 0 && b.len() > 0 && a[0] == b[0] {
        lemma_lex_total(a.drop_first(), b.drop_first());
        if a.drop_first() == b.drop_first() {
            assert(a =~= seq![a[0]] + a.drop_first());
            assert(b =~= seq![b[0]] + b.drop_first());
        }
    } else if a.len() == 0 && b.len() == 0 {
        assert(a =~= b);
    }
}

/// Whether version `a` stands before version `b`.
pub fn version_before(a: &[u32], b: &[u32]) -> (yes: bool)
    ensures
        yes == lex_before(ints(a@), ints(b@)),
{
    let mut i: usize = 0;
    assert(ints(a@).skip(0) == ints(a@));
    assert(ints(b@).skip(0) == ints(b@));
    while i < a.len() && i < b.len() && a[i] == b[i]
        invariant
            i <= a@.len(),
            i <= b@.len(),
            lex_before(ints(a@), ints(b@)) == lex_before(ints(a@).skip(i as int), ints(b@).skip(i as int)),
        decreases a@.len() - i,
    {
        assert(ints(a@).skip(i as int).drop_first() == ints(a@).skip(i + 1));
        assert(ints(b@).skip(i as int).drop_first() == ints(b@).skip(i + 1));
        i = i + 1;
    }
    if i == b.len() {
        false
    } else if i == a.len() {
        true
    } else {
        a[i] < b[i]
    }
}

/// Whether text `a` stands before text `b`, by code points.
pub fn text_before(a: &str, b: &str) -> (yes: bool)
    ensures
        yes == lex_before(code_points(a@), code_points(b@)),
{
    let x = to_chars(a);
    let y = to_chars(b);
    let mut i: usize = 0;
    assert(code_points(x@).skip(0) == code_points(x@));
    assert(code_points(y@).skip(0) == code_points(y@));
    while i < x.len() && i < y.len() && x[i] == y[i]
        invariant
            i <= x@.len(),
            i <= y@.len(),
            lex_before(code_points(x@), code_points(y@)) == lex_before(
                code_points(x@).skip(i as int),
                code_points(y@).skip(i as int),
            ),
        decreases x@.len() - i,
    {
        assert(code_points(x@).skip(i as int).drop_first() == code_points(x@).skip(i + 1));
        assert(code_points(y@).skip(i as int).drop_first() == code_points(y@).skip(i + 1));
        i = i + 1;
    }
    if i == y.len() {
        false
    } else if i == x.len() {
        true
    } else {
        x[i] < y[i]
    }
}

/// The first place where two texts differ decides their order, and a text
/// stands before each that goes on where it ends.
pub proof fn law_first_difference_decides(
    a: &str,
    b: &str,
    before: bool,
    k: int,
)
    requires
        call_ensures(text_before, (a, b), before),
        0 <= k <= a@.len(),
        k <= b@.len(),
        forall|i: int| 0 <= i < k ==> a@[i] == #[trigger] b@[i],
        k < a@.len() && k < b@.len() ==> a@[k] != b@[k],
    ensures
        k < a@.len() && k < b@.len() ==> before == ((a@[k] as int) < (b@[k] as int)),
        k == b@.len() ==> !before,
        k == a@.len() && k < b@.len() ==> before,
{
    assert(code_points(a@).take(k) =~= code_points(b@).take(k));
    lemma_first_difference(code_points(a@), code_points(b@), k);
}

proof fn lemma_first_difference(a: Seq<int>, b: Seq<int>, k: int)
    requires
        0 <= k <= a.len(),
        k <= b.len(),
        a.take(k) == b.take(k),
        k < a.len() && k < b.len() ==> a[k] != b[k],
    ensures
        k < a.len() && k < b.len() ==> lex_before(a, b) == (a[k] < b[k]),
        k == b.len() ==> !lex_before(a, b),
        k == a.len() && k < b.len() ==> lex_before(a, b),
    decreases k,
{
    if k > 0 {
        assert(a[0] == a.take(k)[0] && b[0] == b.take(k)[0]);
        assert(a.drop_first().take(k - 1) =~= a.take(k).drop_first());
        assert(b.drop_first().take(k - 1) =~= b.take(k).drop_first());
        lemma_first_difference(a.drop_first(), b.drop_first(), k - 1);
    }
}

/// Versions are ordered by the first number in which they differ, and a
/// version stands before each that goes on where it ends.
pub proof fn law_first_differing_number_decides(a: &[u32], b: &[u32], before: bool, k: int)
    requires
        call_ensures(version_before, (a, b), before),
        0 <= k <= a@.len(),
        k <= b@.len(),
        forall|i: int| 0 <= i < k ==> a@[i] == #[trigger] b@[i],
        k < a@.len() && k < b@.len() ==> a@[k] != b@[k],
    ensures
        k < a@.len() && k < b@.len() ==> before == (a@[k] < b@[k]),
        k == b@.len() ==> !before,
        k == a@.len() && k < b@.len() ==> before,
{
    assert(ints(a@).take(k) =~= ints(b@).take(k));
    lemma_first_difference(ints(a@), ints(b@), k);
}

} // verus!
