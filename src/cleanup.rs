use vstd::prelude::*;

use crate::chains::{authors, Chain, MessageView};
use crate::tally::{contains_id, distinct, lemma_distinct, lemma_distinct_push};

verus! {

/// A finished chain at least this long has its repeated messages removed.
pub const CLEANUP_THRESHOLD: usize = 5;

/// The most messages that one bulk delete request may name.
pub const DELETE_LIMIT: usize = 100;

/// The ids of the messages of `msgs` whose author posted earlier in `msgs`: every message
/// but each author's first.
pub open spec fn redundant(msgs: Seq<MessageView>) -> Seq<u64>
    decreases msgs.len(),
{
    if msgs.len() == 0 {
        Seq::empty()
    } else {
        let r = redundant(msgs.drop_last());
        if authors(msgs.drop_last()).contains(msgs.last().author) {
            r.push(msgs.last().id)
        } else {
            r
        }
    }
}

/// `s` cut into consecutive pieces of `DELETE_LIMIT` ids, the last one possibly shorter.
pub open spec fn chunks(s: Seq<u64>) -> Seq<Seq<u64>>
    decreases s.len(),
{
    if s.len() == 0 {
        Seq::empty()
    } else if s.len() <= DELETE_LIMIT {
        seq![s]
    } else {
        seq![s.take(DELETE_LIMIT as int)] + chunks(s.skip(DELETE_LIMIT as int))
    }
}

/// The pieces of `bs` put back together.
pub open spec fn flatten(bs: Seq<Seq<u64>>) -> Seq<u64>
    decreases bs.len(),
{
    if bs.len() == 0 {
        Seq::empty()
    } else {
        bs[0] + flatten(bs.drop_first())
    }
}

pub open spec fn views(bs: Seq<Vec<u64>>) -> Seq<Seq<u64>> {
    bs.map_values(|b: Vec<u64>| b@)
}

/// How many ids the batches of `bs` that did not succeed hold.
pub open spec fn failed_total(bs: Seq<Seq<u64>>, ok: Seq<bool>) -> nat
    decreases bs.len(),
{
    if bs.len() == 0 {
        0
    } else {
        failed_total(bs.drop_last(), ok.drop_last()) + if ok.last() {
            0nat
        } else {
            bs.last().len()
        }
    }
}

pub open spec fn total_len(bs: Seq<Seq<u64>>) -> nat
    decreases bs.len(),
{
    if bs.len() == 0 {
        0
    } else {
        total_len(bs.drop_last()) + bs.last().len()
    }
}

proof fn lemma_authors_push(msgs: Seq<MessageView>, m: MessageView)
    ensures
        authors(msgs.push(m)) == authors(msgs).push(m.author),
{
    assert(authors(msgs.push(m)) =~= authors(msgs).push(m.author));
}

/// The ids to delete once `chain` has ended: none for a chain shorter than
/// `CLEANUP_THRESHOLD`; otherwise every message but each participant's first.
pub fn cleanup_chain(chain: &Chain) -> (r: Vec<u64>)
    requires
        chain.wf(),
    ensures
        r@ == if chain.length < CLEANUP_THRESHOLD {
            Seq::empty()
        } else {
            redundant(chain@.messages)
        },
{
    let mut ids: Vec<u64> = Vec::new();
    if chain.length < CLEANUP_THRESHOLD {
        return ids;
    }
    let ghost msgs = chain@.messages;
    let mut user_map: Vec<u64> = Vec::new();
    let mut i: usize = 0;
    proof {
        assert(msgs.take(0) =~= Seq::<MessageView>::empty());
        assert(authors(msgs.take(0)) =~= Seq::<u64>::empty());
    }
    while i < chain.msg_cache.len()
        invariant
            msgs == chain@.messages,
            i <= chain.msg_cache.len(),
            user_map@ == distinct(authors(msgs.take(i as int))),
            ids@ == redundant(msgs.take(i as int)),
        decreases chain.msg_cache.len() - i,
    {
        let author = chain.msg_cache[i].author;
        let id = chain.msg_cache[i].id;
        let ghost pre = msgs.take(i as int);
        proof {
            assert(msgs.take(i + 1) =~= pre.push(msgs[i as int]));
            assert(msgs.take(i + 1).drop_last() =~= pre);
            lemma_authors_push(pre, msgs[i as int]);
            lemma_distinct(authors(pre));
            lemma_distinct_push(authors(pre), author);
        }
        if !contains_id(&user_map, author) {
            user_map.push(author);
        } else {
            ids.push(id);
        }
        i = i + 1;
    }
    proof {
        assert(msgs.take(i as int) =~= msgs);
    }
    ids
}

/// As many ids are deleted as the chain has messages beyond one per participant.
pub proof fn lemma_redundant_len(msgs: Seq<MessageView>)
    ensures
        redundant(msgs).len() == msgs.len() - distinct(authors(msgs)).len(),
    decreases msgs.len(),
{
    if msgs.len() > 0 {
        let p = msgs.drop_last();
        lemma_redundant_len(p);
        assert(msgs =~= p.push(msgs.last()));
        lemma_authors_push(p, msgs.last());
        lemma_distinct(authors(p));
        lemma_distinct_push(authors(p), msgs.last().author);
    }
}

/// `ids` cut into the batches of the bulk delete requests, in order.
pub fn delete_batches(ids: &Vec<u64>) -> (r: Vec<Vec<u64>>)
    ensures
        views(r@) == chunks(ids@),
{
    let mut r: Vec<Vec<u64>> = Vec::new();
    let mut i: usize = 0;
    proof {
        assert(ids@.skip(0) =~= ids@);
        assert(views(r@) + chunks(ids@.skip(0)) =~= chunks(ids@));
    }
    while i < ids.len()
        invariant
            i <= ids.len(),
            views(r@) + chunks(ids@.skip(i as int)) == chunks(ids@),
        decreases ids.len() - i,
    {
        let end: usize = if ids.len() - i <= DELETE_LIMIT {
            ids.len()
        } else {
            i + DELETE_LIMIT
        };
        let mut batch: Vec<u64> = Vec::new();
        let mut j: usize = i;
        while j < end
            invariant
                i <= j <= end <= ids.len(),
                batch@ == ids@.subrange(i as int, j as int),
            decreases end - j,
        {
            batch.push(ids[j]);
            proof {
                assert(ids@.subrange(i as int, j + 1) =~= ids@.subrange(i as int, j as int).push(ids@[j as int]));
            }
            j = j + 1;
        }
        let ghost rest = ids@.skip(i as int);
        let ghost old_r = r@;
        r.push(batch);
        proof {
            assert(views(r@) =~= views(old_r).push(batch@));
            if ids.len() - i <= DELETE_LIMIT {
                assert(batch@ =~= rest);
                assert(ids@.skip(end as int) =~= Seq::<u64>::empty());
                assert(chunks(rest) == seq![rest]);
            } else {
                assert(batch@ =~= rest.take(DELETE_LIMIT as int));
                assert(ids@.skip(end as int) =~= rest.skip(DELETE_LIMIT as int));
            }
            assert(views(r@) + chunks(ids@.skip(end as int)) =~= views(old_r) + chunks(rest));
        }
        i = end;
    }
    proof {
        assert(ids@.skip(i as int) =~= Seq::<u64>::empty());
        assert(views(r@) + Seq::<Seq<u64>>::empty() =~= views(r@));
    }
    r
}

/// `k` ids take `ceil(k / DELETE_LIMIT)` requests; none for no ids. Each request names
/// between one and `DELETE_LIMIT` ids, and the requests together name every id once, in
/// order.
pub proof fn lemma_chunks(s: Seq<u64>)
    ensures
        chunks(s).len() == (s.len() + DELETE_LIMIT - 1) / DELETE_LIMIT as int,
        flatten(chunks(s)) == s,
        forall|i: int| 0 <= i < chunks(s).len() ==> 0 < #[trigger] chunks(s)[i].len() <= DELETE_LIMIT,
    decreases s.len(),
{
    if s.len() == 0 {
        assert(s =~= Seq::<u64>::empty());
    } else if s.len() <= DELETE_LIMIT {
        assert(seq![s].drop_first() =~= Seq::<Seq<u64>>::empty());
        assert(seq![s][0] == s);
        assert(flatten(seq![s]) == s + flatten(Seq::<Seq<u64>>::empty()));
        assert(s + Seq::<u64>::empty() =~= s);
    } else {
        let rest = s.skip(DELETE_LIMIT as int);
        lemma_chunks(rest);
        let c = seq![s.take(DELETE_LIMIT as int)] + chunks(rest);
        assert(c.drop_first() =~= chunks(rest));
        assert(c[0] == s.take(DELETE_LIMIT as int));
        assert(flatten(c) == s.take(DELETE_LIMIT as int) + flatten(chunks(rest)));
        assert(s.take(DELETE_LIMIT as int) + rest =~= s);
        assert forall|i: int| 0 <= i < c.len() implies 0 < #[trigger] c[i].len() <= DELETE_LIMIT by {
            if i > 0 {
                assert(c[i] == chunks(rest)[i - 1]);
            }
        }
    }
}

/// Every batch went through, or else how many ids are left undeleted.
#[derive(Debug, Clone, Copy, PartialEq, Eq, Structural)]
pub struct PartialDeletionFailure {
    pub undeleted: usize,
}

/// Sums up the bulk delete requests of `batches`, where `succeeded[i]` tells whether the
/// request for `batches[i]` went through. Nothing is retried or undone.
pub fn deletion_report(batches: &Vec<Vec<u64>>, succeeded: &Vec<bool>) -> (r: Result<(), PartialDeletionFailure>)
    requires
        batches.len() == succeeded.len(),
        total_len(views(batches@)) <= usize::MAX,
    ensures
        r is Ok <==> failed_total(views(batches@), succeeded@) == 0,
        r matches Err(e) ==> e.undeleted == failed_total(views(batches@), succeeded@),
{
    let ghost bs = views(batches@);
    let mut undeleted: usize = 0;
    let mut i: usize = 0;
    proof {
        assert(bs.take(0) =~= Seq::<Seq<u64>>::empty());
    }
    while i < batches.len()
        invariant
            bs == views(batches@),
            batches.len() == succeeded.len(),
            total_len(bs) <= usize::MAX,
            i <= batches.len(),
            undeleted == failed_total(bs.take(i as int), succeeded@.take(i as int)),
            failed_total(bs.take(i as int), succeeded@.take(i as int)) <= total_len(bs.take(i as int)),
        decreases batches.len() - i,
    {
        proof {
            assert(bs.take(i + 1).drop_last() =~= bs.take(i as int));
            assert(succeeded@.take(i + 1).drop_last() =~= succeeded@.take(i as int));
            lemma_total_len_prefix(bs, i + 1);
        }
        if !succeeded[i] {
            undeleted = undeleted + batches[i].len();
        }
        i = i + 1;
    }
    proof {
        assert(bs.take(i as int) =~= bs);
        assert(succeeded@.take(i as int) =~= succeeded@);
    }
    if undeleted == 0 {
        Ok(())
    } else {
        Err(PartialDeletionFailure { undeleted })
    }
}

proof fn lemma_total_len_prefix(bs: Seq<Seq<u64>>, n: int)
    requires
        0 <= n <= bs.len(),
    ensures
        total_len(bs.take(n)) <= total_len(bs),
    decreases bs.len() - n,
{
    if n < bs.len() {
        lemma_total_len_prefix(bs, n + 1);
        assert(bs.take(n + 1).drop_last() =~= bs.take(n));
    } else {
        assert(bs.take(n) =~= bs);
    }
}

} // verus!
