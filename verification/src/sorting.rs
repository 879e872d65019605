//! The post ordering: positions `0..n` of the post records, sorted so that
//! strictly later publish dates come first and records with equal dates keep
//! their original relative order (a stable descending sort, done by sorting
//! the positions themselves).

use vstd::prelude::*;
use crate::timestamp::{Timestamp, ts_lt};

verus! {

/// Position `a` comes no later than position `b` in the date-ordered list:
/// either `a`'s date is strictly later, or the dates are equal and `a` is the
/// earlier record.
pub open spec fn idx_le(dates: Seq<Timestamp>, a: usize, b: usize) -> bool {
    ts_lt(dates[b as int], dates[a as int]) || (dates[a as int] == dates[b as int] && a <= b)
}

/// `s` lists positions in date order (later dates first, ties by position).
pub open spec fn sorted_ids(dates: Seq<Timestamp>, s: Seq<usize>) -> bool {
    forall|i: int, j: int| 0 <= i < j < s.len() ==> idx_le(dates, s[i], s[j])
}

/// Inserts position `x` before the first listed position it precedes.
pub open spec fn spec_insert_idx(dates: Seq<Timestamp>, s: Seq<usize>, x: usize) -> Seq<usize>
    decreases s.len(),
{
    if s.len() == 0 {
        seq![x]
    } else if idx_le(dates, x, s[0]) {
        seq![x] + s
    } else {
        seq![s[0]] + spec_insert_idx(dates, s.drop_first(), x)
    }
}

/// The date order of the first `n` positions, built by inserting each
/// position in turn.
pub open spec fn spec_sort_indices(dates: Seq<Timestamp>, n: nat) -> Seq<usize>
    decreases n,
{
    if n == 0 {
        Seq::<usize>::empty()
    } else {
        spec_insert_idx(dates, spec_sort_indices(dates, (n - 1) as nat), ((n - 1) as usize))
    }
}

proof fn lemma_idx_le_total(dates: Seq<Timestamp>, a: usize, b: usize)
    ensures
        idx_le(dates, a, b) || idx_le(dates, b, a),
{
}

proof fn lemma_idx_le_trans(dates: Seq<Timestamp>, a: usize, b: usize, c: usize)
    requires
        idx_le(dates, a, b),
        idx_le(dates, b, c),
    ensures
        idx_le(dates, a, c),
{
}

/// Inserting `x` splits the list at some point `p`, leaving everything else
/// in place.
proof fn lemma_insert_shape(dates: Seq<Timestamp>, s: Seq<usize>, x: usize)
    ensures
        exists|p: int|
            0 <= p <= s.len() && spec_insert_idx(dates, s, x) == s.take(p) + seq![x] + s.skip(p),
    decreases s.len(),
{
    if s.len() == 0 {
        assert(spec_insert_idx(dates, s, x) == s.take(0) + seq![x] + s.skip(0)) by {
            assert(s.take(0) + seq![x] + s.skip(0) =~= seq![x]);
        }
    } else if idx_le(dates, x, s[0]) {
        assert(spec_insert_idx(dates, s, x) == s.take(0) + seq![x] + s.skip(0)) by {
            assert(s.take(0) + seq![x] + s.skip(0) =~= seq![x] + s);
        }
    } else {
        lemma_insert_shape(dates, s.drop_first(), x);
        let rest = s.drop_first();
        let p = choose|p: int|
            0 <= p <= rest.len() && spec_insert_idx(dates, rest, x) == rest.take(p) + seq![x]
                + rest.skip(p);
        assert(spec_insert_idx(dates, s, x) == s.take(p + 1) + seq![x] + s.skip(p + 1)) by {
            assert(rest.take(p) =~= s.subrange(1, p + 1));
            assert(rest.skip(p) =~= s.skip(p + 1));
            assert(seq![s[0]] + (rest.take(p) + seq![x] + rest.skip(p)) =~= s.take(p + 1) + seq![x]
                + s.skip(p + 1));
        }
    }
}

/// What the inserted list holds: `x` and exactly the old positions.
proof fn lemma_insert_contains(dates: Seq<Timestamp>, s: Seq<usize>, x: usize)
    ensures
        spec_insert_idx(dates, s, x).len() == s.len() + 1,
        forall|y: usize| #[trigger]
            spec_insert_idx(dates, s, x).contains(y) <==> (s.contains(y) || y == x),
{
    lemma_insert_shape(dates, s, x);
    let p = choose|p: int|
        0 <= p <= s.len() && spec_insert_idx(dates, s, x) == s.take(p) + seq![x] + s.skip(p);
    let r = spec_insert_idx(dates, s, x);
    assert forall|y: usize| #[trigger] r.contains(y) implies (s.contains(y) || y == x) by {
        let i = choose|i: int| 0 <= i < r.len() && r[i] == y;
        if i < p {
            assert(s[i] == y);
        } else if i > p {
            assert(s[i - 1] == y);
        }
    }
    assert forall|y: usize| s.contains(y) || y == x implies #[trigger] r.contains(y) by {
        if y == x {
            assert(r[p] == y);
        } else {
            let i = choose|i: int| 0 <= i < s.len() && s[i] == y;
            if i < p {
                assert(r[i] == y);
            } else {
                assert(r[i + 1] == y);
            }
        }
    }
}

proof fn lemma_insert_sorted(dates: Seq<Timestamp>, s: Seq<usize>, x: usize)
    requires
        sorted_ids(dates, s),
    ensures
        sorted_ids(dates, spec_insert_idx(dates, s, x)),
    decreases s.len(),
{
    if s.len() == 0 {
    } else if idx_le(dates, x, s[0]) {
        let r = seq![x] + s;
        assert forall|i: int, j: int| 0 <= i < j < r.len() implies idx_le(dates, r[i], r[j]) by {
            if i == 0 {
                if j > 1 {
                    lemma_idx_le_trans(dates, x, s[0], s[j - 1]);
                }
            }
        }
    } else {
        let rest = s.drop_first();
        assert(sorted_ids(dates, rest)) by {
            assert(forall|i: int, j: int|
                0 <= i < j < rest.len() ==> rest[i] == s[i + 1] && rest[j] == s[j + 1]);
        }
        lemma_insert_sorted(dates, rest, x);
        lemma_insert_contains(dates, rest, x);
        let ri = spec_insert_idx(dates, rest, x);
        let r = seq![s[0]] + ri;
        assert(idx_le(dates, s[0], x)) by {
            lemma_idx_le_total(dates, x, s[0]);
        }
        assert forall|i: int, j: int| 0 <= i < j < r.len() implies idx_le(dates, r[i], r[j]) by {
            if i == 0 {
                assert(ri.contains(ri[j - 1]));
                if ri[j - 1] == x {
                    assert(idx_le(dates, s[0], x));
                } else {
                    assert(rest.contains(ri[j - 1]));
                    let k = choose|k: int| 0 <= k < rest.len() && rest[k] == ri[j - 1];
                    assert(rest[k] == s[k + 1]);
                    assert(idx_le(dates, s[0], s[k + 1]));
                }
            }
        }
        assert(spec_insert_idx(dates, s, x) == r);
    }
}

/// The sorted position list: it has length `n`, holds exactly the positions
/// below `n`, each once, and lists them in date order.
pub proof fn lemma_sort_indices_facts(dates: Seq<Timestamp>, n: nat)
    requires
        n <= usize::MAX as nat,
    ensures
        spec_sort_indices(dates, n).len() == n,
        forall|y: usize| #[trigger] spec_sort_indices(dates, n).contains(y) <==> (y as nat) < n,
        sorted_ids(dates, spec_sort_indices(dates, n)),
        forall|i: int, j: int|
            0 <= i < j < n ==> spec_sort_indices(dates, n)[i] != spec_sort_indices(dates, n)[j],
    decreases n,
{
    if n > 0 {
        lemma_sort_indices_facts(dates, (n - 1) as nat);
        let prev = spec_sort_indices(dates, (n - 1) as nat);
        let x = (n - 1) as usize;
        lemma_insert_contains(dates, prev, x);
        lemma_insert_sorted(dates, prev, x);
        lemma_insert_shape(dates, prev, x);
        let r = spec_sort_indices(dates, n);
        assert forall|y: usize| #[trigger] r.contains(y) implies (y as nat) < n by {
            assert(prev.contains(y) || y == x);
        }
        assert forall|y: usize| (y as nat) < n implies #[trigger] r.contains(y) by {
            if (y as nat) < n - 1 {
                assert(prev.contains(y));
            }
        }
        let p = choose|p: int|
            0 <= p <= prev.len() && spec_insert_idx(dates, prev, x) == prev.take(p) + seq![x]
                + prev.skip(p);
        assert(!prev.contains(x));
        assert forall|i: int, j: int| 0 <= i < j < n implies r[i] != r[j] by {
            if i == p || j == p {
                if i == p {
                    assert(r[j] == prev[j - 1]);
                    assert(prev.contains(prev[j - 1]));
                } else {
                    assert(r[i] == prev[i]);
                    assert(prev.contains(prev[i]));
                }
            } else {
                let pi = if i < p {
                    i
                } else {
                    i - 1
                };
                let pj = if j < p {
                    j
                } else {
                    j - 1
                };
                assert(r[i] == prev[pi] && r[j] == prev[pj]);
            }
        }
    }
}

fn insert_index(dates: &Vec<Timestamp>, v: &mut Vec<usize>, x: usize)
    requires
        x < dates@.len(),
        forall|k: int| 0 <= k < old(v)@.len() ==> old(v)@[k] < dates@.len(),
    ensures
        final(v)@ == spec_insert_idx(dates@, old(v)@, x),
        forall|k: int| 0 <= k < final(v)@.len() ==> final(v)@[k] < dates@.len(),
{
    let ghost s = v@;
    let n = v.len();
    let mut i: usize = 0;
    while i < n
        invariant
            i <= n,
            v@ == s,
            n == s.len(),
            x < dates@.len(),
            forall|k: int| 0 <= k < s.len() ==> s[k] < dates@.len(),
            forall|k: int| 0 <= k < i ==> !idx_le(dates@, x, s[k]),
        ensures
            i <= n,
            v@ == s,
            forall|k: int| 0 <= k < i ==> !idx_le(dates@, x, s[k]),
            i < n ==> idx_le(dates@, x, s[i as int]),
        decreases n - i,
    {
        let y = v[i];
        let later = dates[y].lt(&dates[x]);
        let le = later || (dates[x] == dates[y] && x <= y);
        if le {
            break ;
        }
        i = i + 1;
    }
    proof {
        lemma_insert_split(dates@, s, x, i as int);
    }
    v.insert(i, x);
    proof {
        if i < s.len() {
            assert(spec_insert_idx(dates@, s.skip(i as int), x) =~= seq![x] + s.skip(i as int));
        } else {
            assert(s.skip(i as int) =~= Seq::<usize>::empty());
        }
        assert(v@ =~= s.take(i as int) + seq![x] + s.skip(i as int));
        assert(v@ =~= spec_insert_idx(dates@, s, x));
        lemma_insert_contains(dates@, s, x);
        assert forall|k: int| 0 <= k < v@.len() implies v@[k] < dates@.len() by {
            assert(v@.contains(v@[k]));
        }
    }
}

/// Inserting past a prefix that `x` does not precede only touches the rest.
proof fn lemma_insert_split(dates: Seq<Timestamp>, s: Seq<usize>, x: usize, i: int)
    requires
        0 <= i <= s.len(),
        forall|k: int| 0 <= k < i ==> !idx_le(dates, x, s[k]),
    ensures
        spec_insert_idx(dates, s, x) == s.take(i) + spec_insert_idx(dates, s.skip(i), x),
    decreases i,
{
    if i == 0 {
        assert(s.take(0) + spec_insert_idx(dates, s.skip(0), x) =~= spec_insert_idx(
            dates,
            s.skip(0),
            x,
        ));
        assert(s.skip(0) =~= s);
    } else {
        let rest = s.drop_first();
        assert(forall|k: int| 0 <= k < i - 1 ==> rest[k] == s[k + 1]);
        lemma_insert_split(dates, rest, x, i - 1);
        assert(rest.take(i - 1) =~= s.subrange(1, i));
        assert(rest.skip(i - 1) =~= s.skip(i));
        assert(seq![s[0]] + (rest.take(i - 1) + spec_insert_idx(dates, rest.skip(i - 1), x)) =~= s
            .take(i) + spec_insert_idx(dates, s.skip(i), x));
    }
}

/// Sorts the positions `0..dates.len()` into date order: strictly later
/// dates first, equal dates in position order.
pub fn sort_indices_by_date(dates: &Vec<Timestamp>) -> (r: Vec<usize>)
    ensures
        r@ == spec_sort_indices(dates@, dates@.len()),
        r@.len() == dates@.len(),
        forall|k: int| 0 <= k < r@.len() ==> r@[k] < dates@.len(),
{
    let n = dates.len();
    let mut r: Vec<usize> = Vec::new();
    let mut i: usize = 0;
    while i < n
        invariant
            i <= n,
            n == dates@.len(),
            r@ == spec_sort_indices(dates@, i as nat),
            forall|k: int| 0 <= k < r@.len() ==> r@[k] < dates@.len(),
        decreases n - i,
    {
        insert_index(dates, &mut r, i);
        i = i + 1;
    }
    proof {
        lemma_sort_indices_facts(dates@, n as nat);
    }
    r
}

} // verus!
