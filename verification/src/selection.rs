//! Picking elements out of a list, in their order.
use vstd::prelude::*;

verus! {

/// Whether `at` are the positions of all elements of a list that are to be kept, from the first to
/// the last.
pub open spec fn picks<T>(at: Seq<int>, list: Seq<T>, keep: spec_fn(T) -> bool) -> bool {
    &&& forall|k: int, l: int| 0 <= k < l < at.len() ==> #[trigger] at[k] < #[trigger] at[l]
    &&& forall|k: int|
        0 <= k < at.len() ==> 0 <= #[trigger] at[k] < list.len() && keep(list[at[k]])
    &&& forall|i: int| 0 <= i < list.len() && keep(#[trigger] list[i]) ==> at.contains(i)
}

/// Nothing is picked out of an empty list.
pub proof fn lemma_picks_none<T>(list: Seq<T>, keep: spec_fn(T) -> bool)
    requires
        list.len() == 0,
    ensures
        picks(Seq::<int>::empty(), list, keep),
{
}

/// The last element of a list is picked after those before it, if it is to be kept.
pub proof fn lemma_picks_last<T>(at: Seq<int>, list: Seq<T>, keep: spec_fn(T) -> bool)
    requires
        list.len() > 0,
        picks(at, list.drop_last(), keep),
    ensures
        keep(list.last()) ==> picks(at.push(list.len() - 1), list, keep),
        !keep(list.last()) ==> picks(at, list, keep),
{
    let last = list.len() - 1;
    let more = at.push(last);
    let shorter = list.drop_last();
    assert forall|i: int| 0 <= i < list.len() && keep(#[trigger] list[i]) implies more.contains(
        i,
    ) && (i < last ==> at.contains(i)) by {
        if i < last {
            assert(shorter[i] == list[i]);
            let k = choose|k: int| 0 <= k < at.len() && at[k] == i;
            assert(more[k] == i);
        } else {
            assert(more[at.len() as int] == last);
        }
    }
    assert forall|k: int| 0 <= k < at.len() implies 0 <= #[trigger] at[k] < list.len() && keep(
        list[at[k]],
    ) by {
        assert(shorter[at[k]] == list[at[k]]);
    }
    if keep(list.last()) {
        assert forall|k: int| 0 <= k < more.len() implies 0 <= #[trigger] more[k] < list.len()
            && keep(list[more[k]]) by {
            if k < at.len() {
                assert(more[k] == at[k]);
            }
        }
        assert forall|k: int, l: int| 0 <= k < l < more.len() implies #[trigger] more[k]
            < #[trigger] more[l] by {
            assert(more[k] == at[k]);
            if l < at.len() {
                assert(more[l] == at[l]);
            }
        }
    }
}

/// There is one way only to pick what is to be kept.
pub proof fn law_picks_unique<T>(a: Seq<int>, b: Seq<int>, list: Seq<T>, keep: spec_fn(T) -> bool)
    requires
        picks(a, list, keep),
        picks(b, list, keep),
    ensures
        a == b,
    decreases a.len(),
{
    if a.len() > 0 && b.len() > 0 {
        let (p, q) = (a.last(), b.last());
        assert(keep(list[p]) && keep(list[q]));
        let k = choose|k: int| 0 <= k < b.len() && b[k] == p;
        let l = choose|l: int| 0 <= l < a.len() && a[l] == q;
        assert(p == q);
        let fewer = list.take(p);
        assert forall|s: Seq<int>| (s == a || s == b) implies #[trigger] picks(
            s.drop_last(),
            fewer,
            keep,
        ) by {
            let t = s.drop_last();
            assert forall|i: int| 0 <= i < fewer.len() && keep(#[trigger] fewer[i]) implies t.contains(
                i,
            ) by {
                assert(keep(list[i]));
                let m = choose|m: int| 0 <= m < s.len() && s[m] == i;
                assert(t[m] == i);
            }
            assert forall|m: int| 0 <= m < t.len() implies 0 <= #[trigger] t[m] < fewer.len()
                && keep(fewer[t[m]]) by {
                assert(t[m] == s[m]);
                assert(s[m] < s[s.len() - 1]);
                assert(fewer[t[m]] == list[s[m]]);
            }
        }
        assert(picks(a.drop_last(), fewer, keep));
        assert(picks(b.drop_last(), fewer, keep));
        law_picks_unique(a.drop_last(), b.drop_last(), fewer, keep);
        assert(a =~= a.drop_last().push(p));
        assert(b =~= b.drop_last().push(q));
    } else if a.len() > 0 {
        assert(keep(list[a[0]]));
        assert(b.contains(a[0]));
    } else if b.len() > 0 {
        assert(keep(list[b[0]]));
        assert(a.contains(b[0]));
    }
}

} // verus!
