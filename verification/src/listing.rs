//! The order in which reviews are shown: by rating, highest first.

use crate::record::Review;
use vstd::prelude::*;
use vstd::seq_lib::*;

verus! {

/// The test that picks the reviews whose rating has rank `k`.
pub open spec fn rank_is(k: int) -> spec_fn(Review) -> bool {
    |r: Review| r.rating.rank() == k
}

/// Whether the ratings never rise along `s`.
pub open spec fn descending(s: Seq<Review>) -> bool {
    forall|i: int, j: int| 0 <= i < j < s.len() ==> s[i].rating.rank() >= s[j].rating.rank()
}

/// Whether `out` is `stored` put in the order of showing: the same reviews,
/// ratings never rising, and reviews of equal rating in the order in which
/// `stored` holds them.
pub open spec fn is_listing(out: Seq<Review>, stored: Seq<Review>) -> bool {
    &&& descending(out)
    &&& out.to_multiset() == stored.to_multiset()
    &&& forall|k: int| #![trigger rank_is(k)] out.filter(rank_is(k)) == stored.filter(rank_is(k))
}

/// Putting `x` behind everything that ranks at least as high leaves each
/// rank's reviews in the order they would have with `x` put last.
proof fn lemma_insert_keeps_order(prefix: Seq<Review>, x: Review, pos: int, k: int)
    requires
        0 <= pos <= prefix.len(),
        forall|j: int| pos <= j < prefix.len() ==> prefix[j].rating.rank() < x.rating.rank(),
    ensures
        prefix.insert(pos, x).filter(rank_is(k)) == prefix.push(x).filter(rank_is(k)),
{
    let p = rank_is(k);
    let a = prefix.subrange(0, pos);
    let b = prefix.subrange(pos, prefix.len() as int);
    assert(prefix == a + b);
    Seq::filter_distributes_over_add(a.push(x), b, p);
    Seq::filter_distributes_over_add(a, b, p);
    a.lemma_filter_push(x, p);
    prefix.lemma_filter_push(x, p);
    if p(x) {
        b.lemma_all_neg_filter_empty(p);
    }
}

/// Puts the stored reviews in the order of showing: by rating, highest
/// first, reviews of equal rating in the order in which they were stored.
pub fn get_reviews(stored: Vec<Review>) -> (reviews: Vec<Review>)
    ensures
        is_listing(reviews@, stored@),
{
    let mut v = stored;
    let ghost input = v@;
    let mut i: usize = 0;
    while i < v.len()
        invariant
            i <= v.len(),
            v.len() == input.len(),
            v@.skip(i as int) == input.skip(i as int),
            descending(v@.take(i as int)),
            v@.to_multiset() == input.to_multiset(),
            forall|k: int|
                #![trigger rank_is(k)]
                v@.take(i as int).filter(rank_is(k)) == input.take(i as int).filter(rank_is(k)),
        decreases v.len() - i,
    {
        let ghost before = v@;
        let ghost sorted = v@.take(i as int);
        let key = v[i].rating.key();
        let mut pos: usize = i;
        while pos > 0 && v[pos - 1].rating.key() < key
            invariant
                pos <= i < v.len(),
                v@ == before,
                key == before[i as int].rating.rank(),
                forall|j: int| pos <= j < i ==> before[j].rating.rank() < key,
            decreases pos,
        {
            pos -= 1;
        }
        let x = v.remove(i);
        v.insert(pos, x);
        proof {
            assert(before[i as int] == before.skip(i as int)[0]);
            assert(v@.take(i + 1) == sorted.insert(pos as int, x));
            assert(v@.skip(i + 1) == input.skip(i + 1)) by {
                assert(v@.skip(i + 1) == before.skip(i as int).skip(1));
            }
            assert(input.take(i + 1) == input.take(i as int).push(x));
            assert(forall|j: int|
                pos <= j < sorted.len() ==> sorted[j].rating.rank() < x.rating.rank());
            assert forall|j: int| 0 <= j < pos implies sorted[j].rating.rank()
                >= x.rating.rank() by {
                assert(sorted[pos - 1] == before[pos - 1]);
            }
            assert(descending(sorted.insert(pos as int, x)));
            assert forall|k: int| #![trigger rank_is(k)] v@.take(i + 1).filter(rank_is(k))
                == input.take(i + 1).filter(rank_is(k)) by {
                lemma_insert_keeps_order(sorted, x, pos as int, k);
                sorted.lemma_filter_push(x, rank_is(k));
                input.take(i as int).lemma_filter_push(x, rank_is(k));
            }
            to_multiset_remove(before, i as int);
            to_multiset_insert(before.remove(i as int), pos as int, x);
            assert(before.to_multiset().count(x) > 0) by {
                to_multiset_contains(before, x);
            }
        }
        i += 1;
    }
    proof {
        assert(v@.take(i as int) == v@);
        assert(input.take(i as int) == input);
    }
    v
}

/// What the `view` command shows: the stored reviews in the order of
/// showing. The store itself is left as it is.
pub fn view(stored: &Vec<Review>) -> (shown: Vec<Review>)
    ensures
        is_listing(shown@, stored@),
{
    let mut copy: Vec<Review> = Vec::new();
    let mut i: usize = 0;
    while i < stored.len()
        invariant
            i <= stored.len(),
            copy@ == stored@.take(i as int),
        decreases stored.len() - i,
    {
        copy.push(stored[i].clone());
        i += 1;
    }
    assert(stored@.take(i as int) == stored@);
    get_reviews(copy)
}

/// Two sequences of falling ratings that hold, for every rank, the same
/// reviews in the same order are one sequence.
proof fn lemma_same_order(a: Seq<Review>, b: Seq<Review>)
    requires
        descending(a),
        descending(b),
        a.len() == b.len(),
        forall|k: int| #![trigger rank_is(k)] a.filter(rank_is(k)) == b.filter(rank_is(k)),
    ensures
        a == b,
    decreases a.len(),
{
    if a.len() > 0 {
        let x = a.last();
        let y = b.last();
        let kx = x.rating.rank();
        let ky = y.rating.rank();
        let a0 = a.drop_last();
        let b0 = b.drop_last();
        assert(a == a0.push(x));
        assert(b == b0.push(y));
        assert(kx >= ky) by {
            a0.lemma_filter_push(x, rank_is(kx));
            let f = a.filter(rank_is(kx));
            assert(f.last() == x);
            assert(f.contains(x));
            assert(b.filter(rank_is(kx)) == f);
            b.lemma_filter_contains_rev(rank_is(kx), x);
            let j = choose|j: int| 0 <= j < b.len() && b[j] == x;
            assert(b[j].rating.rank() >= b[b.len() - 1].rating.rank());
        }
        assert(ky >= kx) by {
            b0.lemma_filter_push(y, rank_is(ky));
            let f = b.filter(rank_is(ky));
            assert(f.last() == y);
            assert(f.contains(y));
            assert(a.filter(rank_is(ky)) == f);
            a.lemma_filter_contains_rev(rank_is(ky), y);
            let j = choose|j: int| 0 <= j < a.len() && a[j] == y;
            assert(a[j].rating.rank() >= a[a.len() - 1].rating.rank());
        }
        assert forall|k: int| #![trigger rank_is(k)] a0.filter(rank_is(k)) == b0.filter(
            rank_is(k),
        ) by {
            a0.lemma_filter_push(x, rank_is(k));
            b0.lemma_filter_push(y, rank_is(k));
            assert(a.filter(rank_is(k)) == b.filter(rank_is(k)));
            if k == kx {
                let fa = a0.filter(rank_is(k));
                let fb = b0.filter(rank_is(k));
                assert(fa.push(x) == fb.push(y));
                assert(fa == fa.push(x).drop_last());
                assert(fb == fb.push(y).drop_last());
            }
        }
        assert(x == y) by {
            a0.lemma_filter_push(x, rank_is(kx));
            b0.lemma_filter_push(y, rank_is(kx));
            assert(a.filter(rank_is(kx)) == b.filter(rank_is(kx)));
            assert(a0.filter(rank_is(kx)).push(x).last() == x);
            assert(b0.filter(rank_is(kx)).push(y).last() == y);
        }
        assert(descending(a0)) by {
            assert forall|i: int, j: int| 0 <= i < j < a0.len() implies a0[i].rating.rank()
                >= a0[j].rating.rank() by {
                assert(a0[i] == a[i] && a0[j] == a[j]);
            }
        }
        assert(descending(b0)) by {
            assert forall|i: int, j: int| 0 <= i < j < b0.len() implies b0[i].rating.rank()
                >= b0[j].rating.rank() by {
                assert(b0[i] == b[i] && b0[j] == b[j]);
            }
        }
        lemma_same_order(a0, b0);
    }
}

/// The order of showing is fixed by what is stored: two listings of the same
/// stored reviews are equal.
pub proof fn lemma_listing_unique(a: Seq<Review>, b: Seq<Review>, stored: Seq<Review>)
    requires
        is_listing(a, stored),
        is_listing(b, stored),
    ensures
        a == b,
{
    lemma_listing_len(a, stored);
    lemma_listing_len(b, stored);
    lemma_same_order(a, b);
}

/// A listing shows as many reviews as are stored.
pub proof fn lemma_listing_len(out: Seq<Review>, stored: Seq<Review>)
    requires
        is_listing(out, stored),
    ensures
        out.len() == stored.len(),
{
    to_multiset_len(out);
    to_multiset_len(stored);
}

} // verus!
