//! Selection of the leading entries of a report: the positions of the largest keys, largest
//! first, equal keys in their original order (what a stable descending sort followed by a
//! truncation yields).

use vstd::prelude::*;

verus! {

/// Position `i` ranks before position `j`: its key is larger, or the keys are equal and it
/// comes first.
pub open spec fn ranks_before(keys: Seq<u64>, i: int, j: int) -> bool {
    keys[i] > keys[j] || (keys[i] == keys[j] && i < j)
}

/// `r` lists positions of `keys` in ranking order, and every position it leaves out ranks
/// after all of those it lists: `r` is the head of the full ranking.
pub open spec fn is_top_ranking(keys: Seq<u64>, r: Seq<usize>) -> bool {
    &&& forall|a: int| 0 <= a < r.len() ==> #[trigger] r[a] < keys.len()
    &&& forall|a: int, b: int|
        0 <= a < b < r.len() ==> ranks_before(keys, #[trigger] r[a] as int, #[trigger] r[b] as int)
    &&& forall|a: int, x: usize|
        #![trigger r[a], r.contains(x)]
        0 <= a < r.len() && x < keys.len() && !r.contains(x) ==> ranks_before(
            keys,
            r[a] as int,
            x as int,
        )
}

/// Position `x` is not listed yet when the last listed position is `last` (if any).
pub open spec fn still_open(keys: Seq<u64>, has_last: bool, last: int, x: int) -> bool {
    !has_last || ranks_before(keys, last, x)
}

/// When fewer positions than there are keys are listed, some position is left out.
proof fn lemma_some_position_left_out(r: Seq<usize>, len: usize)
    requires
        r.len() < len,
    ensures
        exists|x: usize| x < len && !r.contains(x),
{
    broadcast use vstd::set_lib::range_set_properties, vstd::seq_lib::seq_to_set_is_finite;

    if forall|x: usize| x < len ==> r.contains(x) {
        let all = Set::<usize>::range(0, len);
        assert(all.subset_of(r.to_set()));
        r.lemma_cardinality_of_set();
        vstd::set_lib::lemma_len_subset(all, r.to_set());
        assert(false);
    }
}

/// Positions of the `n` largest keys, largest first; equal keys keep their original order.
/// When there are fewer than `n` keys, every position is listed.
pub fn top_indices_by_key(keys: &Vec<u64>, n: usize) -> (r: Vec<usize>)
    ensures
        r@.len() == if n < keys@.len() {
            n as int
        } else {
            keys@.len() as int
        },
        is_top_ranking(keys@, r@),
{
    let len = keys.len();
    let m = if n < len {
        n
    } else {
        len
    };
    let mut r: Vec<usize> = Vec::new();
    while r.len() < m
        invariant
            len == keys@.len(),
            m <= len,
            m == if n < len {
                n
            } else {
                len
            },
            r@.len() <= m,
            is_top_ranking(keys@, r@),
        decreases m - r.len(),
    {
        let ghost s = keys@;
        let ghost rs = r@;
        let has_last = r.len() > 0;
        let last: usize = if has_last {
            r[r.len() - 1]
        } else {
            0
        };
        // A position is still to be listed exactly when it ranks after the last one listed.
        assert forall|x: usize| x < len implies (!rs.contains(x) <==> still_open(
            s,
            has_last,
            last as int,
            x as int,
        )) by {
            if has_last {
                if rs.contains(x) {
                    let a = choose|a: int| 0 <= a < rs.len() && rs[a] == x;
                    if a < rs.len() - 1 {
                        assert(ranks_before(s, rs[a] as int, rs[rs.len() - 1] as int));
                    }
                } else {
                    assert(ranks_before(s, rs[rs.len() - 1] as int, x as int));
                }
            }
        }
        proof {
            lemma_some_position_left_out(rs, len);
        }
        let mut found = false;
        let mut best: usize = 0;
        let mut j: usize = 0;
        while j < len
            invariant
                len == keys@.len(),
                s == keys@,
                j <= len,
                found ==> best < j,
                found ==> still_open(s, has_last, last as int, best as int),
                found ==> forall|x: int|
                    #![trigger still_open(s, has_last, last as int, x)]
                    0 <= x < j && still_open(s, has_last, last as int, x) ==> x == best
                        || ranks_before(s, best as int, x),
                !found ==> forall|x: int|
                    #![trigger still_open(s, has_last, last as int, x)]
                    0 <= x < j ==> !still_open(s, has_last, last as int, x),
                has_last ==> last < len,
            decreases len - j,
        {
            let open = !has_last || keys[last] > keys[j] || (keys[last] == keys[j] && last < j);
            assert(open == still_open(s, has_last, last as int, j as int));
            if open {
                if !found || keys[j] > keys[best] {
                    best = j;
                    found = true;
                }
            }
            j = j + 1;
        }
        proof {
            let x = choose|x: usize| x < len && !rs.contains(x);
            assert(still_open(s, has_last, last as int, x as int));
            assert(found);
            assert(!rs.contains(best));
        }
        r.push(best);
        proof {
            let r2 = r@;
            assert(r2 == rs.push(best));
            assert forall|a: int, x: usize|
                #![trigger r2[a], r2.contains(x)]
                0 <= a < r2.len() && x < len && !r2.contains(x) implies ranks_before(
                s,
                r2[a] as int,
                x as int,
            ) by {
                assert(!rs.contains(x)) by {
                    if rs.contains(x) {
                        let b = choose|b: int| 0 <= b < rs.len() && rs[b] == x;
                        assert(r2[b] == x);
                    }
                }
                assert(x != best as int) by {
                    assert(r2[rs.len() as int] == best);
                }
                if a < rs.len() {
                    assert(r2[a] == rs[a]);
                } else {
                    assert(r2[a] == best);
                }
            }
            assert forall|a: int, b: int| 0 <= a < b < r2.len() implies ranks_before(
                s,
                #[trigger] r2[a] as int,
                #[trigger] r2[b] as int,
            ) by {
                assert(r2[a] == rs[a]);
                if b < rs.len() {
                    assert(r2[b] == rs[b]);
                } else {
                    assert(r2[b] == best);
                }
            }
        }
    }
    r
}

/// Listing the top of a ranking is determined by the keys: two top lists of the same
/// length are equal.
pub proof fn lemma_top_ranking_unique(keys: Seq<u64>, r1: Seq<usize>, r2: Seq<usize>)
    requires
        is_top_ranking(keys, r1),
        is_top_ranking(keys, r2),
        r1.len() == r2.len(),
    ensures
        r1 == r2,
{
    assert forall|a: int| 0 <= a < r1.len() implies r1[a] == r2[a] by {
        lemma_top_ranking_agree_at(keys, r1, r2, a);
    }
    assert(r1 =~= r2);
}

proof fn lemma_top_ranking_agree_at(keys: Seq<u64>, r1: Seq<usize>, r2: Seq<usize>, a: int)
    requires
        is_top_ranking(keys, r1),
        is_top_ranking(keys, r2),
        r1.len() == r2.len(),
        0 <= a < r1.len(),
    ensures
        r1[a] == r2[a],
    decreases a,
{
    if a > 0 {
        lemma_top_ranking_agree_at(keys, r1, r2, a - 1);
    }
    let x = r1[a];
    let y = r2[a];
    if x != y {
        assert forall|c: int| 0 <= c < a implies r1[c] == r2[c] by {
            lemma_top_ranking_agree_at(keys, r1, r2, c);
        }
        // x ranks before y in r1's view, and y before x in r2's view.
        if r1.contains(y) {
            let c = choose|c: int| 0 <= c < r1.len() && r1[c] == y;
            if c < a {
                assert(r2[c] == y);
                assert(ranks_before(keys, r2[c] as int, r2[a] as int));
            }
            if c > a {
                assert(ranks_before(keys, r1[a] as int, r1[c] as int));
            }
        } else {
            assert(ranks_before(keys, r1[a] as int, y as int));
        }
        assert(ranks_before(keys, x as int, y as int));
        if r2.contains(x) {
            let c = choose|c: int| 0 <= c < r2.len() && r2[c] == x;
            if c < a {
                assert(r1[c] == x);
                assert(ranks_before(keys, r1[c] as int, r1[a] as int));
            }
            if c > a {
                assert(ranks_before(keys, r2[a] as int, r2[c] as int));
            }
        } else {
            assert(ranks_before(keys, r2[a] as int, x as int));
        }
        assert(ranks_before(keys, y as int, x as int));
    }
}

/// The first `k` entries of a top list are the top list of length `k`: asking for fewer
/// entries gives a prefix of the longer answer.
pub proof fn lemma_top_ranking_prefix(keys: Seq<u64>, r: Seq<usize>, k: int)
    requires
        is_top_ranking(keys, r),
        0 <= k <= r.len(),
    ensures
        is_top_ranking(keys, r.take(k)),
{
    let t = r.take(k);
    assert forall|a: int, x: usize|
        #![trigger t[a], t.contains(x)]
        0 <= a < t.len() && x < keys.len() && !t.contains(x) implies ranks_before(
        keys,
        t[a] as int,
        x as int,
    ) by {
        assert(t[a] == r[a]);
        if r.contains(x) {
            let c = choose|c: int| 0 <= c < r.len() && r[c] == x;
            if c < k {
                assert(t[c] == x);
            }
            assert(ranks_before(keys, r[a] as int, r[c] as int));
        }
    }
    assert forall|a: int, b: int| 0 <= a < b < t.len() implies ranks_before(
        keys,
        #[trigger] t[a] as int,
        #[trigger] t[b] as int,
    ) by {
        assert(t[a] == r[a]);
        assert(t[b] == r[b]);
    }
}

/// A shorter top list is the head of a longer one: asking for fewer entries never reorders
/// or replaces the entries that are kept.
pub proof fn lemma_shorter_top_is_head(keys: Seq<u64>, short: Seq<usize>, long: Seq<usize>)
    requires
        is_top_ranking(keys, short),
        is_top_ranking(keys, long),
        short.len() <= long.len(),
    ensures
        short == long.take(short.len() as int),
{
    lemma_top_ranking_prefix(keys, long, short.len() as int);
    lemma_top_ranking_unique(keys, short, long.take(short.len() as int));
}

} // verus!
