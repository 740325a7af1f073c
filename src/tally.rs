use vstd::prelude::*;

verus! {

/// The distinct values of `s`, each where it first occurs.
pub open spec fn distinct(s: Seq<u64>) -> Seq<u64>
    decreases s.len(),
{
    if s.len() == 0 {
        Seq::empty()
    } else {
        let d = distinct(s.drop_last());
        if d.contains(s.last()) {
            d
        } else {
            d.push(s.last())
        }
    }
}

/// How many times `a` occurs in `s`.
pub open spec fn count_of(s: Seq<u64>, a: u64) -> nat
    decreases s.len(),
{
    if s.len() == 0 {
        0
    } else {
        count_of(s.drop_last(), a) + if s.last() == a {
            1nat
        } else {
            0nat
        }
    }
}

/// The sum of the counts in `s` of the values of `keys`.
pub open spec fn sum_counts(keys: Seq<u64>, s: Seq<u64>) -> nat
    decreases keys.len(),
{
    if keys.len() == 0 {
        0
    } else {
        sum_counts(keys.drop_last(), s) + count_of(s, keys.last())
    }
}

pub proof fn lemma_distinct_push(s: Seq<u64>, x: u64)
    ensures
        distinct(s.push(x)) == if distinct(s).contains(x) {
            distinct(s)
        } else {
            distinct(s).push(x)
        },
{
    assert(s.push(x).drop_last() =~= s);
}

pub proof fn lemma_count_push(s: Seq<u64>, x: u64, a: u64)
    ensures
        count_of(s.push(x), a) == count_of(s, a) + if x == a {
            1nat
        } else {
            0nat
        },
{
    assert(s.push(x).drop_last() =~= s);
}

pub proof fn lemma_push_contains(s: Seq<u64>, x: u64, a: u64)
    ensures
        s.push(x).contains(a) <==> (s.contains(a) || a == x),
{
    assert(s.push(x)[s.len() as int] == x);
    if s.contains(a) {
        let j = choose|j: int| 0 <= j < s.len() && s[j] == a;
        assert(s.push(x)[j] == a);
    }
    if s.push(x).contains(a) && a != x {
        let j = choose|j: int| 0 <= j < s.push(x).len() && s.push(x)[j] == a;
        assert(s[j] == a);
    }
}

/// A value is among the distinct values exactly when it occurs, and none repeats.
pub proof fn lemma_distinct(s: Seq<u64>)
    ensures
        forall|a: u64| distinct(s).contains(a) <==> s.contains(a),
        distinct(s).no_duplicates(),
        distinct(s).len() <= s.len(),
    decreases s.len(),
{
    if s.len() > 0 {
        let p = s.drop_last();
        lemma_distinct(p);
        assert(s =~= p.push(s.last()));
        lemma_distinct_push(p, s.last());
        let d = distinct(p);
        if !d.contains(s.last()) {
            assert forall|i: int, j: int|
                0 <= i < j < d.push(s.last()).len() implies d.push(s.last())[i] != d.push(
                s.last(),
            )[j] by {
                if j == d.len() {
                    assert(d.contains(d[i]));
                }
            }
        }
        assert forall|a: u64| distinct(s).contains(a) <==> s.contains(a) by {
            let x = s.last();
            assert(s[s.len() - 1] == x);
            if s.contains(a) && a != x {
                let i = choose|i: int| 0 <= i < s.len() && s[i] == a;
                assert(p[i] == a);
            }
            if p.contains(a) {
                let j = choose|j: int| 0 <= j < p.len() && p[j] == a;
                assert(s[j] == a);
            }
            if !d.contains(x) {
                assert(d.push(x)[d.len() as int] == x);
                if d.contains(a) {
                    let j = choose|j: int| 0 <= j < d.len() && d[j] == a;
                    assert(d.push(x)[j] == a);
                }
                if d.push(x).contains(a) && a != x {
                    let j = choose|j: int| 0 <= j < d.push(x).len() && d.push(x)[j] == a;
                    assert(d[j] == a);
                }
            }
        }
    }
}

/// A value occurs a positive number of times exactly when it occurs, and never more often
/// than `s` is long.
pub proof fn lemma_count(s: Seq<u64>, a: u64)
    ensures
        count_of(s, a) <= s.len(),
        count_of(s, a) > 0 <==> s.contains(a),
    decreases s.len(),
{
    if s.len() > 0 {
        let p = s.drop_last();
        lemma_count(p, a);
        assert(s =~= p.push(s.last()));
        if s.contains(a) && s.last() != a {
            let i = choose|i: int| 0 <= i < s.len() && s[i] == a;
            assert(p[i] == a);
        }
        if p.contains(a) {
            let j = choose|j: int| 0 <= j < p.len() && p[j] == a;
            assert(s[j] == a);
        }
        assert(s[s.len() - 1] == s.last());
    }
}

/// Adding one occurrence of `x` to `s` raises the sum over `keys` by one when `x` is
/// among `keys`, and leaves it alone otherwise.
pub proof fn lemma_sum_counts_push(keys: Seq<u64>, s: Seq<u64>, x: u64)
    requires
        keys.no_duplicates(),
    ensures
        sum_counts(keys, s.push(x)) == sum_counts(keys, s) + if keys.contains(x) {
            1nat
        } else {
            0nat
        },
    decreases keys.len(),
{
    if keys.len() > 0 {
        let k = keys.drop_last();
        assert(k.no_duplicates());
        lemma_sum_counts_push(k, s, x);
        lemma_count_push(s, x, keys.last());
        assert(keys =~= k.push(keys.last()));
        if keys.contains(x) && keys.last() != x {
            let i = choose|i: int| 0 <= i < keys.len() && keys[i] == x;
            assert(k[i] == x);
        }
        if k.contains(x) {
            let j = choose|j: int| 0 <= j < k.len() && k[j] == x;
            assert(keys[j] == x);
            assert(keys[keys.len() - 1] == keys.last());
            assert(keys.last() != x);
        }
        assert(keys[keys.len() - 1] == keys.last());
    }
}

/// Every element of `s` is counted once over its distinct values.
pub proof fn lemma_sum_counts_distinct(s: Seq<u64>)
    ensures
        sum_counts(distinct(s), s) == s.len(),
    decreases s.len(),
{
    if s.len() > 0 {
        let p = s.drop_last();
        let x = s.last();
        assert(s =~= p.push(x));
        lemma_sum_counts_distinct(p);
        lemma_distinct(p);
        lemma_sum_counts_push(distinct(p), p, x);
        lemma_distinct_push(p, x);
        if !distinct(p).contains(x) {
            lemma_count(p, x);
            lemma_count_push(p, x, x);
            let d = distinct(p);
            assert(d.push(x).drop_last() =~= d);
        }
    }
}

/// Whether `v` holds `x`.
pub fn contains_id(v: &Vec<u64>, x: u64) -> (r: bool)
    ensures
        r == v@.contains(x),
{
    let mut i: usize = 0;
    while i < v.len()
        invariant
            i <= v.len(),
            forall|j: int| 0 <= j < i ==> v@[j] != x,
        decreases v.len() - i,
    {
        if v[i] == x {
            return true;
        }
        i = i + 1;
    }
    false
}

} // verus!
