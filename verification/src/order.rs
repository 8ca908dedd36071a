//! The order of `String`s (`Ord for str`): lexicographic over the characters' code points,
//! which is the order of their UTF-8 bytes.
use vstd::prelude::*;

use crate::text::chars_of;

verus! {

/// `a` sorts strictly before `b`.
pub open spec fn str_lt(a: Seq<char>, b: Seq<char>) -> bool
    decreases a.len(),
{
    if a.len() == 0 {
        b.len() > 0
    } else if b.len() == 0 {
        false
    } else if a[0] == b[0] {
        str_lt(a.drop_first(), b.drop_first())
    } else {
        a[0] < b[0]
    }
}

/// Names are ordered character by character: `a` comes before `b` exactly when, at the
/// first position `k` where they differ, `a`'s character is the smaller, or when `a` is a
/// proper prefix of `b` (they agree on all of `a`). Length plays no other part.
pub proof fn lemma_lt_is_lexicographic(a: Seq<char>, b: Seq<char>)
    ensures
        str_lt(a, b) <==> exists|k: int|
            #![trigger a.take(k)]
            0 <= k <= a.len() && k <= b.len() && a.take(k) == b.take(k) && ((k < a.len() && k
                < b.len() && a[k] < b[k]) || (k == a.len() && k < b.len())),
    decreases a.len(),
{
    if a.len() == 0 {
        if b.len() > 0 {
            assert(a.take(0) =~= b.take(0));
        }
    } else if b.len() == 0 {
    } else if a[0] == b[0] {
        let a1 = a.drop_first();
        let b1 = b.drop_first();
        lemma_lt_is_lexicographic(a1, b1);
        if str_lt(a, b) {
            let k1 = choose|k: int|
                #![trigger a1.take(k)]
                0 <= k <= a1.len() && k <= b1.len() && a1.take(k) == b1.take(k) && ((k < a1.len()
                    && k < b1.len() && a1[k] < b1[k]) || (k == a1.len() && k < b1.len()));
            let k = k1 + 1;
            assert(a.take(k) =~= seq![a[0]] + a1.take(k1));
            assert(b.take(k) =~= seq![b[0]] + b1.take(k1));
            assert(a.take(k) == b.take(k));
        }
        if exists|k: int|
            #![trigger a.take(k)]
            0 <= k <= a.len() && k <= b.len() && a.take(k) == b.take(k) && ((k < a.len() && k
                < b.len() && a[k] < b[k]) || (k == a.len() && k < b.len())) {
            let k = choose|k: int|
                #![trigger a.take(k)]
                0 <= k <= a.len() && k <= b.len() && a.take(k) == b.take(k) && ((k < a.len() && k
                    < b.len() && a[k] < b[k]) || (k == a.len() && k < b.len()));
            assert(k >= 1);
            let k1 = k - 1;
            assert(a1.take(k1) =~= a.take(k).drop_first());
            assert(b1.take(k1) =~= b.take(k).drop_first());
            assert(a1.take(k1) == b1.take(k1));
            if k < a.len() && k < b.len() {
                assert(a1[k1] == a[k] && b1[k1] == b[k]);
            }
        }
    } else {
        if str_lt(a, b) {
            assert(a.take(0) =~= b.take(0));
        }
        if exists|k: int|
            #![trigger a.take(k)]
            0 <= k <= a.len() && k <= b.len() && a.take(k) == b.take(k) && ((k < a.len() && k
                < b.len() && a[k] < b[k]) || (k == a.len() && k < b.len())) {
            let k = choose|k: int|
                #![trigger a.take(k)]
                0 <= k <= a.len() && k <= b.len() && a.take(k) == b.take(k) && ((k < a.len() && k
                    < b.len() && a[k] < b[k]) || (k == a.len() && k < b.len()));
            if k >= 1 {
                assert(a.take(k)[0] == b.take(k)[0]);
            }
        }
    }
}

pub proof fn lemma_lt_irreflexive(a: Seq<char>)
    ensures
        !str_lt(a, a),
    decreases a.len(),
{
    if a.len() > 0 {
        lemma_lt_irreflexive(a.drop_first());
    }
}

pub proof fn lemma_lt_total(a: Seq<char>, b: Seq<char>)
    ensures
        str_lt(a, b) || a == b || str_lt(b, a),
    decreases a.len(),
{
    if a.len() > 0 && b.len() > 0 && a[0] == b[0] {
        lemma_lt_total(a.drop_first(), b.drop_first());
        if a.drop_first() == b.drop_first() {
            assert(a =~= seq![a[0]] + a.drop_first());
            assert(b =~= seq![b[0]] + b.drop_first());
        }
    } else if a.len() == 0 && b.len() == 0 {
        assert(a =~= b);
    }
}

pub proof fn lemma_lt_asymmetric(a: Seq<char>, b: Seq<char>)
    ensures
        str_lt(a, b) ==> !str_lt(b, a),
    decreases a.len(),
{
    if a.len() > 0 && b.len() > 0 && a[0] == b[0] {
        lemma_lt_asymmetric(a.drop_first(), b.drop_first());
    }
}

pub proof fn lemma_lt_transitive(a: Seq<char>, b: Seq<char>, c: Seq<char>)
    requires
        str_lt(a, b),
        str_lt(b, c),
    ensures
        str_lt(a, c),
    decreases a.len(),
{
    if a.len() > 0 && b.len() > 0 && c.len() > 0 {
        if a[0] == b[0] && b[0] == c[0] {
            lemma_lt_transitive(a.drop_first(), b.drop_first(), c.drop_first());
        }
    }
}

/// Whether `a` sorts strictly before `b`, decided character by character.
pub fn chars_lt(a: &Vec<char>, b: &Vec<char>) -> (r: bool)
    ensures
        r == str_lt(a@, b@),
{
    let mut i: usize = 0;
    assert(a@.skip(0) =~= a@);
    assert(b@.skip(0) =~= b@);
    while i < a.len() && i < b.len()
        invariant
            0 <= i <= a.len(),
            i <= b.len(),
            forall|k: int| 0 <= k < i ==> a@[k] == b@[k],
            str_lt(a@, b@) == str_lt(a@.skip(i as int), b@.skip(i as int)),
        decreases a.len() - i,
    {
        assert(a@.skip(i as int).drop_first() =~= a@.skip(i + 1));
        assert(b@.skip(i as int).drop_first() =~= b@.skip(i + 1));
        assert(a@.skip(i as int)[0] == a@[i as int]);
        assert(b@.skip(i as int)[0] == b@[i as int]);
        if a[i] != b[i] {
            return a[i] < b[i];
        }
        i += 1;
    }
    i == a.len() && i < b.len()
}

/// `a < b` for strings.
pub fn string_lt(a: &str, b: &str) -> (r: bool)
    ensures
        r == str_lt(a@, b@),
{
    let va = chars_of(a);
    let vb = chars_of(b);
    chars_lt(&va, &vb)
}

} // verus!
