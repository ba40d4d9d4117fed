//! The result orderings of the caller-facing listings: a total
//! preorder per row type, a verified insertion sort that arranges the
//! same rows in that order, and the byte-lexicographic order used for
//! name columns.

use vstd::prelude::*;
use vstd::string::StringSliceAdditionalSpecFns;

verus! {

broadcast use vstd::seq_lib::group_to_multiset_ensures;

/// A total preorder on a listing's rows: whether `a` may stand before
/// `b`. Two distinct rows may be ordered both ways; a sort then keeps
/// them in some order without inventing or losing rows.
pub trait ViewOrder: Sized {
    /// Whether `a` may stand before `b`.
    spec fn leq(a: Self, b: Self) -> bool;

    /// Decides the ordering.
    fn leq_exec(a: &Self, b: &Self) -> (r: bool)
        ensures
            r == Self::leq(*a, *b),
    ;

    /// Any two rows are ordered one way or the other.
    proof fn leq_total(a: Self, b: Self)
        ensures
            Self::leq(a, b) || Self::leq(b, a),
    ;

    /// The ordering is transitive.
    proof fn leq_trans(a: Self, b: Self, c: Self)
        requires
            Self::leq(a, b),
            Self::leq(b, c),
        ensures
            Self::leq(a, c),
    ;
}

/// Whether the rows of `s` already stand in their listing order.
pub open spec fn ordered<T: ViewOrder>(s: Seq<T>) -> bool {
    forall|i: int, j: int| 0 <= i < j < s.len() ==> T::leq(#[trigger] s[i], #[trigger] s[j])
}

/// Sorts the rows into their listing order: the result holds exactly
/// the same rows, ordered.
pub fn sort_rows<T: ViewOrder>(v: Vec<T>) -> (r: Vec<T>)
    ensures
        r@.len() == v@.len(),
        ordered(r@),
        r@.to_multiset() == v@.to_multiset(),
{
    let ghost orig = v@;
    let mut rest = v;
    let mut out: Vec<T> = Vec::new();
    while rest.len() > 0
        invariant
            ordered(out@),
            out@.to_multiset().add(rest@.to_multiset()) == orig.to_multiset(),
            out@.len() + rest@.len() == orig.len(),
        decreases rest@.len(),
    {
        let ghost rest_before = rest@;
        let x = match rest.pop() {
            Some(x) => x,
            None => {
                proof {
                    assert(false);
                }
                return out;
            },
        };
        proof {
            assert(rest_before =~= rest@.push(x));
            assert(rest_before.to_multiset() =~= rest@.to_multiset().insert(x));
        }
        let n = out.len();
        let mut i: usize = 0;
        while i < n && T::leq_exec(&out[i], &x)
            invariant
                0 <= i <= n,
                n == out@.len(),
                forall|k: int| 0 <= k < i ==> T::leq(#[trigger] out@[k], x),
            decreases n - i,
        {
            i = i + 1;
        }
        let ghost before = out@;
        proof {
            if i < n {
                T::leq_total(before[i as int], x);
            }
            assert forall|k: int| i <= k < n implies T::leq(x, #[trigger] before[k]) by {
                if k > i {
                    T::leq_trans(x, before[i as int], before[k]);
                }
            }
        }
        out.insert(i, x);
        proof {
            let now = out@;
            assert(now == before.insert(i as int, x));
            assert forall|p: int, q: int|
                0 <= p < q < now.len() implies T::leq(#[trigger] now[p], #[trigger] now[q]) by {
                if p < i && q < i {
                    assert(now[p] == before[p] && now[q] == before[q]);
                } else if p < i && q == i {
                    assert(now[p] == before[p] && now[q] == x);
                } else if p < i && q > i {
                    assert(now[p] == before[p] && now[q] == before[q - 1]);
                } else if p == i {
                    assert(now[p] == x && now[q] == before[q - 1]);
                } else {
                    assert(now[p] == before[p - 1] && now[q] == before[q - 1]);
                }
            }
            vstd::seq_lib::to_multiset_insert(before, i as int, x);
        }
    }
    proof {
        assert(rest@.to_multiset().len() == 0);
        assert(out@.to_multiset() =~= out@.to_multiset().add(rest@.to_multiset()));
    }
    out
}

// ---------------------------------------------------------------------
// Byte-lexicographic order on names
// ---------------------------------------------------------------------
/// Whether the byte sequence `a` sorts at or before `b`, comparing
/// byte by byte with the shorter prefix first.
pub open spec fn lex_le(a: Seq<u8>, b: Seq<u8>) -> bool
    decreases a.len(),
{
    if a.len() == 0 {
        true
    } else if b.len() == 0 {
        false
    } else if a[0] < b[0] {
        true
    } else if a[0] > b[0] {
        false
    } else {
        lex_le(a.drop_first(), b.drop_first())
    }
}

/// Any two byte sequences are lexicographically ordered one way or the
/// other.
pub proof fn lemma_lex_le_total(a: Seq<u8>, b: Seq<u8>)
    ensures
        lex_le(a, b) || lex_le(b, a),
    decreases a.len(),
{
    if a.len() > 0 && b.len() > 0 && a[0] == b[0] {
        lemma_lex_le_total(a.drop_first(), b.drop_first());
    }
}

/// The lexicographic order is transitive.
pub proof fn lemma_lex_le_trans(a: Seq<u8>, b: Seq<u8>, c: Seq<u8>)
    requires
        lex_le(a, b),
        lex_le(b, c),
    ensures
        lex_le(a, c),
    decreases a.len(),
{
    if a.len() > 0 && b.len() > 0 && c.len() > 0 && a[0] == b[0] && b[0] == c[0] {
        lemma_lex_le_trans(a.drop_first(), b.drop_first(), c.drop_first());
    }
}

/// Decides the byte-lexicographic order of two strings over their
/// UTF-8 bytes.
pub fn str_lex_le(a: &str, b: &str) -> (r: bool)
    ensures
        r == lex_le(a.spec_bytes(), b.spec_bytes()),
{
    let ab = a.as_bytes();
    let bb = b.as_bytes();
    let na = ab.len();
    let nb = bb.len();
    let mut i: usize = 0;
    proof {
        assert(ab@.skip(0) =~= ab@);
        assert(bb@.skip(0) =~= bb@);
    }
    while i < na && i < nb && ab[i] == bb[i]
        invariant
            na == ab@.len(),
            nb == bb@.len(),
            ab@ == a.spec_bytes(),
            bb@ == b.spec_bytes(),
            0 <= i <= na,
            i <= nb,
            lex_le(ab@, bb@) == lex_le(ab@.skip(i as int), bb@.skip(i as int)),
        decreases na - i,
    {
        proof {
            assert(ab@.skip(i as int)[0] == ab@[i as int]);
            assert(bb@.skip(i as int)[0] == bb@[i as int]);
            assert(ab@.skip(i as int).drop_first() =~= ab@.skip(i + 1));
            assert(bb@.skip(i as int).drop_first() =~= bb@.skip(i + 1));
        }
        i = i + 1;
    }
    proof {
        if i < na {
            assert(ab@.skip(i as int)[0] == ab@[i as int]);
        }
        if i < nb {
            assert(bb@.skip(i as int)[0] == bb@[i as int]);
        }
    }
    if i >= na {
        true
    } else if i >= nb {
        false
    } else {
        ab[i] < bb[i]
    }
}

impl ViewOrder for u128 {
    /// Plain ascending order on identifiers.
    open spec fn leq(a: u128, b: u128) -> bool {
        a <= b
    }

    fn leq_exec(a: &u128, b: &u128) -> bool {
        *a <= *b
    }

    proof fn leq_total(a: u128, b: u128) {
    }

    proof fn leq_trans(a: u128, b: u128, c: u128) {
    }
}

} // verus!
