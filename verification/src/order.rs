//! Lexicographic ordering on byte paths.
//!
//! Relative paths are byte strings with `/` separating components. Plans are
//! sorted with this order; because a directory's path is a strict prefix of
//! every path below it, the order places a directory before all of its
//! descendants, which is what the apply step needs (`MkDir` first).

use vstd::prelude::*;
use core::cmp::Ordering;

verus! {

/// Lexicographic "less than or equal" on byte sequences: the first differing
/// byte decides; a strict prefix comes before every extension of it.
pub open spec fn lex_le(a: Seq<u8>, b: Seq<u8>) -> bool
    decreases a.len(),
{
    if a.len() == 0 {
        true
    } else if b.len() == 0 {
        false
    } else if a[0] < b[0] {
        true
    } else if a[0] > b[0] {
        false
    } else {
        lex_le(a.drop_first(), b.drop_first())
    }
}

/// Strict lexicographic order.
pub open spec fn lex_lt(a: Seq<u8>, b: Seq<u8>) -> bool {
    lex_le(a, b) && a != b
}

/// Any two byte sequences are comparable.
pub proof fn lemma_lex_le_total(a: Seq<u8>, b: Seq<u8>)
    ensures
        lex_le(a, b) || lex_le(b, a),
    decreases a.len(),
{
    if a.len() != 0 && b.len() != 0 && a[0] == b[0] {
        lemma_lex_le_total(a.drop_first(), b.drop_first());
    }
}

/// Two sequences each at most the other are equal.
pub proof fn lemma_lex_le_antisym(a: Seq<u8>, b: Seq<u8>)
    requires
        lex_le(a, b),
        lex_le(b, a),
    ensures
        a == b,
    decreases a.len(),
{
    if a.len() == 0 {
        assert(b.len() == 0);
        assert(a =~= b);
    } else {
        assert(b.len() != 0);
        assert(a[0] == b[0]);
        lemma_lex_le_antisym(a.drop_first(), b.drop_first());
        assert(a =~= b) by {
            assert(forall|i: int|
                1 <= i < a.len() ==> a[i] == a.drop_first()[i - 1] && b[i] == b.drop_first()[i
                    - 1]);
        }
    }
}

/// The order is transitive.
pub proof fn lemma_lex_le_trans(a: Seq<u8>, b: Seq<u8>, c: Seq<u8>)
    requires
        lex_le(a, b),
        lex_le(b, c),
    ensures
        lex_le(a, c),
    decreases a.len(),
{
    if a.len() != 0 && b.len() != 0 && c.len() != 0 {
        if a[0] == b[0] && b[0] == c[0] {
            lemma_lex_le_trans(a.drop_first(), b.drop_first(), c.drop_first());
        }
    }
}

/// A prefix of a sequence sorts at or before it.
pub proof fn lemma_prefix_lex_le(a: Seq<u8>, b: Seq<u8>)
    requires
        a.len() <= b.len(),
        a == b.take(a.len() as int),
    ensures
        lex_le(a, b),
    decreases a.len(),
{
    if a.len() != 0 {
        assert(a[0] == b.take(a.len() as int)[0]);
        assert(a.drop_first() =~= b.drop_first().take(a.len() - 1)) by {
            assert(forall|i: int|
                0 <= i < a.len() - 1 ==> a.drop_first()[i] == b.take(a.len() as int)[i + 1]);
        }
        lemma_prefix_lex_le(a.drop_first(), b.drop_first());
    }
}

/// Three-way lexicographic comparison of two byte vectors.
pub fn lex_cmp(a: &Vec<u8>, b: &Vec<u8>) -> (o: Ordering)
    ensures
        o == Ordering::Equal <==> a@ == b@,
        o == Ordering::Less <==> lex_lt(a@, b@),
        o == Ordering::Greater <==> lex_lt(b@, a@),
{
    let n: usize = if a.len() < b.len() {
        a.len()
    } else {
        b.len()
    };
    let mut i: usize = 0;
    proof {
        assert(a@.skip(0) =~= a@);
        assert(b@.skip(0) =~= b@);
    }
    while i < n && a[i] == b[i]
        invariant
            i <= n,
            n == if a@.len() < b@.len() {
                a@.len()
            } else {
                b@.len()
            },
            forall|j: int| 0 <= j < i ==> a@[j] == b@[j],
            lex_le(a@, b@) <==> lex_le(a@.skip(i as int), b@.skip(i as int)),
            lex_le(b@, a@) <==> lex_le(b@.skip(i as int), a@.skip(i as int)),
        decreases n - i,
    {
        proof {
            let ai = i as int;
            assert(a@.skip(ai).len() != 0 && b@.skip(ai).len() != 0);
            assert(a@.skip(ai)[0] == a@[ai] && b@.skip(ai)[0] == b@[ai]);
            assert(a@.skip(ai).drop_first() =~= a@.skip(ai + 1));
            assert(b@.skip(ai).drop_first() =~= b@.skip(ai + 1));
        }
        i = i + 1;
    }
    proof {
        lemma_lex_le_total(a@, b@);
    }
    if i < n {
        // the first differing byte decides
        proof {
            let ai = i as int;
            assert(a@.skip(ai).len() != 0 && b@.skip(ai).len() != 0);
            assert(a@.skip(ai)[0] == a@[ai] && b@.skip(ai)[0] == b@[ai]);
        }
        if a[i] < b[i] {
            Ordering::Less
        } else {
            Ordering::Greater
        }
    } else if a.len() == b.len() {
        proof {
            assert(a@ =~= b@);
        }
        Ordering::Equal
    } else if a.len() < b.len() {
        // `a` ran out first: it is a strict prefix of `b`
        proof {
            assert(a@.skip(i as int).len() == 0);
            assert(b@.skip(i as int).len() != 0);
        }
        Ordering::Less
    } else {
        proof {
            assert(b@.skip(i as int).len() == 0);
            assert(a@.skip(i as int).len() != 0);
        }
        Ordering::Greater
    }
}

} // verus!
