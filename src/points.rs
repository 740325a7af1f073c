use vstd::prelude::*;

use crate::chains::{authors, Chain, ChainView};
use crate::tally::{lemma_count, lemma_sum_counts_distinct, sum_counts};

verus! {

broadcast use vstd::std_specs::hash::group_hash_axioms;

/// The points that each of `ps` other than `breaker` earns from chain `c`: as many as the
/// messages that they contributed, in the order of `ps`.
pub open spec fn awards(ps: Seq<u64>, c: ChainView, breaker: u64) -> Seq<(u64, u64)>
    decreases ps.len(),
{
    if ps.len() == 0 {
        Seq::empty()
    } else {
        let r = awards(ps.drop_last(), c, breaker);
        if ps.last() == breaker {
            r
        } else {
            r.push((ps.last(), c.count(ps.last()) as u64))
        }
    }
}

/// The sum of the points in `s`.
pub open spec fn total(s: Seq<(u64, u64)>) -> nat
    decreases s.len(),
{
    if s.len() == 0 {
        0
    } else {
        total(s.drop_last()) + s.last().1 as nat
    }
}

/// The points that a finished chain awards, one entry per participant other than the
/// breaker, in the order in which they joined.
pub fn points_per_user(chain: &Chain, breaker: u64) -> (r: Vec<(u64, u64)>)
    requires
        chain.wf(),
    ensures
        r@ == awards(chain@.participants(), chain@, breaker),
{
    let ghost ps = chain@.participants();
    let mut r: Vec<(u64, u64)> = Vec::new();
    let mut i: usize = 0;
    while i < chain.chainers.len()
        invariant
            chain.wf(),
            ps == chain.chainers@,
            i <= chain.chainers.len(),
            r@ == awards(ps.take(i as int), chain@, breaker),
        decreases chain.chainers.len() - i,
    {
        let id = chain.chainers[i];
        proof {
            assert(ps.take(i + 1).drop_last() =~= ps.take(i as int));
            assert(chain.chainers@.contains(id)) by {
                assert(chain.chainers@[i as int] == id);
            }
        }
        if id != breaker {
            let count = match chain.num_messages.get(&id) {
                Some(c) => *c,
                None => 0,
            };
            r.push((id, count as u64));
        }
        i = i + 1;
    }
    proof {
        assert(ps.take(i as int) =~= ps);
    }
    r
}

proof fn lemma_awards_total(ps: Seq<u64>, c: ChainView, breaker: u64)
    requires
        forall|i: int| 0 <= i < ps.len() ==> c.count(#[trigger] ps[i]) <= u64::MAX,
    ensures
        total(awards(ps, c, breaker)) <= sum_counts(ps, authors(c.messages)),
        forall|i: int| 0 <= i < awards(ps, c, breaker).len()
            ==> (#[trigger] awards(ps, c, breaker)[i]).0 != breaker,
    decreases ps.len(),
{
    if ps.len() > 0 {
        let p = ps.drop_last();
        assert forall|i: int| 0 <= i < p.len() implies c.count(#[trigger] p[i]) <= u64::MAX by {
            assert(p[i] == ps[i]);
        }
        lemma_awards_total(p, c, breaker);
        assert(c.count(ps[ps.len() - 1]) <= u64::MAX);
        let r = awards(p, c, breaker);
        if ps.last() != breaker {
            assert(r.push((ps.last(), c.count(ps.last()) as u64)).drop_last() =~= r);
            assert forall|i: int| 0 <= i < r.len() + 1 implies (#[trigger] r.push(
                (ps.last(), c.count(ps.last()) as u64),
            )[i]).0 != breaker by {
                if i < r.len() {
                    assert(r.push((ps.last(), c.count(ps.last()) as u64))[i] == r[i]);
                }
            }
        }
    }
}

/// What a finished chain awards adds up to no more than its length, and the breaker is
/// awarded nothing.
pub proof fn lemma_points_bounded(chain: Chain, breaker: u64)
    requires
        chain.wf(),
    ensures
        total(awards(chain@.participants(), chain@, breaker)) <= chain@.length(),
        forall|i: int| 0 <= i < awards(chain@.participants(), chain@, breaker).len()
            ==> (#[trigger] awards(chain@.participants(), chain@, breaker)[i]).0 != breaker,
{
    let c = chain@;
    let s = authors(c.messages);
    let ps = c.participants();
    assert forall|i: int| 0 <= i < ps.len() implies c.count(#[trigger] ps[i]) <= u64::MAX by {
        lemma_count(s, ps[i]);
        assert(s.len() == chain.msg_cache@.len());
    }
    lemma_awards_total(ps, c, breaker);
    lemma_sum_counts_distinct(s);
}

} // verus!
