//! The order of texts.

use vstd::prelude::*;

verus! {

/// Whether `a` stands before `b` in the order of texts: at the first place
/// where they differ, `a` has the smaller character or has ended.
pub open spec fn before(a: Seq<char>, b: Seq<char>) -> bool
    decreases a.len(),
{
    if b.len() == 0 {
        false
    } else if a.len() == 0 {
        true
    } else if a[0] != b[0] {
        a[0] < b[0]
    } else {
        before(a.skip(1), b.skip(1))
    }
}

/// Tests whether `a` stands before `b`.
pub fn comes_before(a: &[char], b: &[char]) -> (r: bool)
    ensures
        r == before(a@, b@),
{
    let mut i: usize = 0;
    assert(a@.skip(0) == a@);
    assert(b@.skip(0) == b@);
    while i < a.len() && i < b.len()
        invariant
            i <= a@.len(),
            i <= b@.len(),
            before(a@, b@) == before(a@.skip(i as int), b@.skip(i as int)),
        decreases a@.len() - i,
    {
        if a[i] != b[i] {
            return a[i] < b[i];
        }
        assert(a@.skip(i as int).skip(1) == a@.skip(i + 1));
        assert(b@.skip(i as int).skip(1) == b@.skip(i + 1));
        i = i + 1;
    }
    i < b.len()
}

/// No text stands before itself, and of two texts that differ one stands before
/// the other, but not both.
pub proof fn lemma_before_total(a: Seq<char>, b: Seq<char>)
    ensures
        a == b ==> !before(a, b),
        a != b ==> before(a, b) != before(b, a),
    decreases a.len(),
{
    if a.len() > 0 && b.len() > 0 && a[0] == b[0] {
        lemma_before_total(a.skip(1), b.skip(1));
        if a.skip(1) == b.skip(1) {
            assert(a =~= seq![a[0]] + a.skip(1));
            assert(b =~= seq![b[0]] + b.skip(1));
        }
    } else if a.len() == 0 && b.len() == 0 {
        assert(a =~= b);
    }
}

/// The order of texts is transitive.
pub proof fn lemma_before_transitive(a: Seq<char>, b: Seq<char>, c: Seq<char>)
    requires
        before(a, b),
        before(b, c),
    ensures
        before(a, c),
    decreases a.len(),
{
    if a.len() > 0 && b.len() > 0 && c.len() > 0 && a[0] == b[0] && b[0] == c[0] {
        lemma_before_transitive(a.skip(1), b.skip(1), c.skip(1));
    }
}

/// At the first place where two texts differ the smaller character comes first,
/// and a text comes before every longer one that starts with it.
pub proof fn first_difference_decides(
    start: Seq<char>,
    a: char,
    rest_a: Seq<char>,
    b: char,
    rest_b: Seq<char>,
)
    requires
        a != b,
    ensures
        before(start + seq![a] + rest_a, start + seq![b] + rest_b) <==> a < b,
        before(start, start + seq![a] + rest_a),
        !before(start + seq![a] + rest_a, start),
    decreases start.len(),
{
    let x = start + seq![a] + rest_a;
    let y = start + seq![b] + rest_b;
    if start.len() > 0 {
        let less = start.skip(1);
        assert(x.skip(1) =~= less + seq![a] + rest_a);
        assert(y.skip(1) =~= less + seq![b] + rest_b);
        assert(x[0] == start[0] && y[0] == start[0]);
        first_difference_decides(less, a, rest_a, b, rest_b);
    } else {
        assert(x[0] == a && y[0] == b);
    }
}

} // verus!
