//! Order-preserving subsequences, used to state that the acknowledged
//! records embed one-for-one, in order, into what the log file holds.

use vstd::prelude::*;

verus! {

/// Whether `a` embeds into `b` as an order-preserving subsequence:
/// each element of `a` is matched to a distinct element of `b`, in
/// order.
pub open spec fn subseq_of<A>(a: Seq<A>, b: Seq<A>) -> bool
    decreases b.len(),
{
    if a.len() == 0 {
        true
    } else if b.len() == 0 {
        false
    } else {
        (a[0] == b[0] && subseq_of(a.skip(1), b.skip(1))) || subseq_of(a, b.skip(1))
    }
}

/// Every sequence is a subsequence of itself.
pub proof fn lemma_subseq_refl<A>(a: Seq<A>)
    ensures
        subseq_of(a, a),
    decreases a.len(),
{
    if a.len() > 0 {
        lemma_subseq_refl(a.skip(1));
    }
}

/// A subsequence survives extending the larger sequence on the right.
pub proof fn lemma_subseq_extend_right<A>(a: Seq<A>, b: Seq<A>, c: Seq<A>)
    requires
        subseq_of(a, b),
    ensures
        subseq_of(a, b + c),
    decreases b.len(),
{
    if a.len() == 0 {
    } else if b.len() == 0 {
    } else {
        assert((b + c).skip(1) =~= b.skip(1) + c);
        if a[0] == b[0] && subseq_of(a.skip(1), b.skip(1)) {
            lemma_subseq_extend_right(a.skip(1), b.skip(1), c);
            assert((b + c)[0] == b[0]);
        } else {
            lemma_subseq_extend_right(a, b.skip(1), c);
        }
    }
}

/// A sequence is a subsequence of itself with anything in front.
pub proof fn lemma_subseq_of_suffix<A>(b: Seq<A>, c: Seq<A>)
    ensures
        subseq_of(c, b + c),
    decreases b.len(),
{
    if b.len() == 0 {
        assert(b + c =~= c);
        lemma_subseq_refl(c);
    } else {
        lemma_subseq_of_suffix(b.skip(1), c);
        assert((b + c).skip(1) =~= b.skip(1) + c);
        if c.len() > 0 {
            assert(subseq_of(c, (b + c).skip(1)));
        }
    }
}

/// Appending the same suffix to both sides preserves the subsequence
/// embedding.
pub proof fn lemma_subseq_append_both<A>(a: Seq<A>, b: Seq<A>, c: Seq<A>)
    requires
        subseq_of(a, b),
    ensures
        subseq_of(a + c, b + c),
    decreases b.len(),
{
    if a.len() == 0 {
        assert(a + c =~= c);
        lemma_subseq_of_suffix(b, c);
    } else if b.len() == 0 {
    } else {
        assert((b + c).skip(1) =~= b.skip(1) + c);
        assert((a + c).skip(1) =~= a.skip(1) + c);
        if a[0] == b[0] && subseq_of(a.skip(1), b.skip(1)) {
            lemma_subseq_append_both(a.skip(1), b.skip(1), c);
            assert((a + c)[0] == (b + c)[0]);
            assert(subseq_of((a + c).skip(1), (b + c).skip(1)));
        } else {
            lemma_subseq_append_both(a, b.skip(1), c);
            assert(subseq_of(a + c, (b + c).skip(1)));
        }
    }
}

} // verus!
