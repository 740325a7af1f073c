use vstd::prelude::*;

verus! {

/// `s`, sorted in descending order, with `x` put in its place (after the entries equal to it).
pub open spec fn insert_desc(s: Seq<i32>, x: i32) -> Seq<i32>
    decreases s.len(),
{
    if s.len() == 0 {
        seq![x]
    } else if x > s[0] {
        seq![x] + s
    } else {
        seq![s[0]] + insert_desc(s.drop_first(), x)
    }
}

/// Three non-negative lengths in descending order.
pub open spec fn is_record(s: Seq<i32>) -> bool {
    &&& s.len() == 3
    &&& s[0] >= s[1] >= s[2] >= 0
}

/// What a record becomes when a chain of length `x` ends: `x` joins, the smallest leaves.
pub open spec fn record_after(s: Seq<i32>, x: i32) -> Seq<i32> {
    insert_desc(s, x).take(3)
}

pub open spec fn record_sum(s: Seq<i32>) -> int {
    s[0] + s[1] + s[2]
}

/// A record after each of the chain lengths `xs` in turn.
pub open spec fn records_after(s: Seq<i32>, xs: Seq<i32>) -> Seq<i32>
    decreases xs.len(),
{
    if xs.len() == 0 {
        s
    } else {
        record_after(records_after(s, xs.drop_last()), xs.last())
    }
}

/// The three longest chains that one member took part in.
#[derive(Debug)]
pub struct LongestChains {
    entries: Vec<i32>,
}

impl View for LongestChains {
    type V = Seq<i32>;

    closed spec fn view(&self) -> Seq<i32> {
        self.entries@
    }
}

proof fn lemma_record_after(s: Seq<i32>, x: i32)
    requires
        is_record(s),
        x >= 0,
    ensures
        record_after(s, x) == if x > s[0] {
            seq![x, s[0], s[1]]
        } else if x > s[1] {
            seq![s[0], x, s[1]]
        } else if x > s[2] {
            seq![s[0], s[1], x]
        } else {
            s
        },
        is_record(record_after(s, x)),
        record_sum(record_after(s, x)) >= record_sum(s),
        record_sum(record_after(s, x)) != record_sum(s) <==> x > s[2],
{
    let t1 = s.drop_first();
    let t2 = t1.drop_first();
    let t3 = t2.drop_first();
    assert(t3.len() == 0);
    assert(insert_desc(t3, x) == seq![x]);
    if x > s[0] {
        assert(insert_desc(s, x).take(3) =~= seq![x, s[0], s[1]]);
    } else if x > s[1] {
        assert(insert_desc(t1, x) == seq![x] + t1);
        assert(insert_desc(s, x).take(3) =~= seq![s[0], x, s[1]]);
    } else if x > s[2] {
        assert(insert_desc(t2, x) == seq![x] + t2);
        assert(insert_desc(t1, x) == seq![t1[0]] + insert_desc(t2, x));
        assert(insert_desc(s, x).take(3) =~= seq![s[0], s[1], x]);
    } else {
        assert(insert_desc(t2, x) == seq![t2[0]] + insert_desc(t3, x));
        assert(insert_desc(t1, x) == seq![t1[0]] + insert_desc(t2, x));
        assert(insert_desc(s, x).take(3) =~= s);
    }
}

impl LongestChains {
    #[verifier::type_invariant]
    spec fn inv(self) -> bool {
        is_record(self.entries@)
    }

    /// A record with no chain in it yet: three zeros.
    pub fn new() -> (r: LongestChains)
        ensures
            r@ == seq![0i32, 0i32, 0i32],
            is_record(r@),
    {
        let mut entries: Vec<i32> = Vec::new();
        entries.push(0);
        entries.push(0);
        entries.push(0);
        proof {
            assert(entries@ =~= seq![0i32, 0i32, 0i32]);
        }
        LongestChains { entries }
    }

    /// The record that `entries` holds, where they form one.
    pub fn from_entries(entries: Vec<i32>) -> (r: Option<LongestChains>)
        ensures
            r is Some <==> is_record(entries@),
            r matches Some(l) ==> l@ == entries@,
    {
        if entries.len() == 3 && entries[0] >= entries[1] && entries[1] >= entries[2] && entries[2] >= 0 {
            Some(LongestChains { entries })
        } else {
            None
        }
    }

    /// The three lengths, longest first.
    pub fn entries(&self) -> (r: &Vec<i32>)
        ensures
            r@ == self@,
            is_record(r@),
    {
        proof {
            use_type_invariant(self);
        }
        &self.entries
    }

    /// Records a chain of length `chain_len`. Returns whether the record changed and so
    /// must be written back: whether its sum differs from before.
    pub fn update(&mut self, chain_len: i32) -> (changed: bool)
        requires
            chain_len >= 0,
        ensures
            final(self)@ == record_after(old(self)@, chain_len),
            is_record(final(self)@),
            record_sum(final(self)@) >= record_sum(old(self)@),
            changed == (record_sum(final(self)@) != record_sum(old(self)@)),
    {
        proof {
            use_type_invariant(&*self);
            lemma_record_after(self@, chain_len);
        }
        let first = self.entries[0];
        let second = self.entries[1];
        let third = self.entries[2];
        let before = first as i64 + second as i64 + third as i64;
        let mut entries: Vec<i32> = Vec::new();
        if chain_len > first {
            entries.push(chain_len);
            entries.push(first);
            entries.push(second);
        } else if chain_len > second {
            entries.push(first);
            entries.push(chain_len);
            entries.push(second);
        } else if chain_len > third {
            entries.push(first);
            entries.push(second);
            entries.push(chain_len);
        } else {
            entries.push(first);
            entries.push(second);
            entries.push(third);
        }
        let after = entries[0] as i64 + entries[1] as i64 + entries[2] as i64;
        proof {
            assert(entries@ =~= record_after(self@, chain_len));
        }
        *self = LongestChains { entries };
        before != after
    }
}

/// However many chains end, a record keeps three non-negative entries in descending order,
/// and the sum of what it keeps never goes down.
pub proof fn lemma_records_stay_sorted(s: Seq<i32>, xs: Seq<i32>)
    requires
        is_record(s),
        forall|i: int| 0 <= i < xs.len() ==> #[trigger] xs[i] >= 0,
    ensures
        is_record(records_after(s, xs)),
        record_sum(records_after(s, xs)) >= record_sum(s),
    decreases xs.len(),
{
    if xs.len() > 0 {
        let p = xs.drop_last();
        assert forall|i: int| 0 <= i < p.len() implies #[trigger] p[i] >= 0 by {
            assert(xs[i] >= 0);
        }
        lemma_records_stay_sorted(s, p);
        assert(xs[xs.len() - 1] >= 0);
        lemma_record_after(records_after(s, p), xs.last());
    }
}

} // verus!
