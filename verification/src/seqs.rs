//! Facts about filtered sequences.
use vstd::prelude::*;

verus! {

/// A filtered sequence holds exactly the items that pass.
pub proof fn lemma_filter_members<A>(s: Seq<A>, pass: spec_fn(A) -> bool)
    ensures
        forall|x: A| #[trigger] s.filter(pass).contains(x) <==> s.contains(x) && pass(x),
    decreases s.len(),
{
    reveal(Seq::filter);
    if s.len() > 0 {
        let front = s.drop_last();
        lemma_filter_members(front, pass);
        assert forall|x: A| #[trigger] s.filter(pass).contains(x) <==> s.contains(x) && pass(x) by {
            assert(front.filter(pass).contains(x) <==> front.contains(x) && pass(x));
            if s.contains(x) {
                let i = s.index_of(x);
                if i < front.len() {
                    assert(front[i] == x);
                }
            }
            if front.contains(x) {
                assert(s[front.index_of(x)] == x);
            }
            if pass(s.last()) {
                let out = s.filter(pass);
                assert(out[out.len() - 1] == s.last());
                if front.filter(pass).contains(x) {
                    assert(out[front.filter(pass).index_of(x)] == x);
                }
                if out.contains(x) && x != s.last() {
                    assert(front.filter(pass)[out.index_of(x)] == x);
                }
            }
            assert(s[s.len() - 1] == s.last());
        }
    }
}

/// Filtering keeps a sequence free of duplicates.
pub proof fn lemma_filter_no_duplicates<A>(s: Seq<A>, pass: spec_fn(A) -> bool)
    requires
        s.no_duplicates(),
    ensures
        s.filter(pass).no_duplicates(),
    decreases s.len(),
{
    reveal(Seq::filter);
    if s.len() > 0 {
        let front = s.drop_last();
        lemma_filter_no_duplicates(front, pass);
        lemma_filter_members(front, pass);
        if front.filter(pass).contains(s.last()) {
            assert(front[front.index_of(s.last())] == s[s.len() - 1]);
        }
    }
}

/// A test that every item passes filters nothing out.
pub proof fn lemma_filter_all<A>(s: Seq<A>, pass: spec_fn(A) -> bool)
    requires
        forall|i: int| 0 <= i < s.len() ==> pass(#[trigger] s[i]),
    ensures
        s.filter(pass) == s,
    decreases s.len(),
{
    reveal(Seq::filter);
    if s.len() > 0 {
        lemma_filter_all(s.drop_last(), pass);
        assert(pass(s[s.len() - 1]));
        assert(s.drop_last().push(s.last()) =~= s);
    }
}

/// Tests that agree on the items of a sequence filter it alike.
pub proof fn lemma_filter_congruent<A>(s: Seq<A>, p: spec_fn(A) -> bool, q: spec_fn(A) -> bool)
    requires
        forall|i: int| 0 <= i < s.len() ==> p(#[trigger] s[i]) == q(s[i]),
    ensures
        s.filter(p) == s.filter(q),
    decreases s.len(),
{
    reveal(Seq::filter);
    if s.len() > 0 {
        lemma_filter_congruent(s.drop_last(), p, q);
        assert(p(s[s.len() - 1]) == q(s[s.len() - 1]));
    }
}

/// In a sequence without duplicates, filtering one item out takes out its only position.
pub proof fn lemma_filter_out_one<A>(s: Seq<A>, i: int)
    requires
        s.no_duplicates(),
        0 <= i < s.len(),
    ensures
        s.filter(|x: A| x != s[i]) == s.remove(i),
    decreases s.len(),
{
    reveal(Seq::filter);
    let pass = |x: A| x != s[i];
    let front = s.drop_last();
    if i == s.len() - 1 {
        assert forall|j: int| 0 <= j < front.len() implies pass(#[trigger] front[j]) by {
            assert(front[j] == s[j]);
        }
        lemma_filter_all(front, pass);
        assert(s.remove(i) =~= front);
    } else {
        lemma_filter_out_one(front, i);
        assert(front[i] == s[i]);
        assert(s.last() == s[s.len() - 1]);
        lemma_filter_congruent(front, pass, |x: A| x != front[i]);
        assert(s.remove(i) =~= front.remove(i).push(s.last()));
    }
}

/// Filtering two sequences in a row is filtering them one after the other.
pub proof fn lemma_filter_concat<A>(a: Seq<A>, b: Seq<A>, pass: spec_fn(A) -> bool)
    ensures
        (a + b).filter(pass) == a.filter(pass) + b.filter(pass),
    decreases b.len(),
{
    reveal(Seq::filter);
    if b.len() == 0 {
        assert(a + b =~= a);
        assert(a.filter(pass) + b.filter(pass) =~= a.filter(pass));
    } else {
        lemma_filter_concat(a, b.drop_last(), pass);
        assert((a + b).drop_last() =~= a + b.drop_last());
        assert((a + b).last() == b.last());
        assert((a + b).filter(pass) =~= a.filter(pass) + b.filter(pass));
    }
}

} // verus!
