//! The order of posts in listings: the latest first, and among posts of one
//! day the one that was met first.

use crate::date::{later, Ymd};
use crate::posts::{post_views, Post, PostView};
use vstd::prelude::*;

verus! {

/// The dates of `posts`, in order.
pub open spec fn dates_of(posts: Seq<PostView>) -> Seq<Ymd> {
    posts.map_values(|p: PostView| p.metadata.date)
}

/// The indices in `order` as mathematical integers.
pub open spec fn indices(order: Seq<usize>) -> Seq<int> {
    order.map_values(|i: usize| i as int)
}

/// Whether the post at index `a` is listed before the post at index `b`: it
/// is of a later day, or of the same day and met earlier.
pub open spec fn comes_before(dates: Seq<Ymd>, a: int, b: int) -> bool {
    later(dates[a], dates[b]) || (dates[a] == dates[b] && a < b)
}

/// Whether `order` lists the first `count` posts by recency: it holds each of
/// their indices, and each entry comes before all entries after it.
pub open spec fn lists_by_recency(dates: Seq<Ymd>, count: int, order: Seq<int>) -> bool {
    &&& order.len() == count
    &&& forall|i: int| 0 <= i < order.len() ==> 0 <= #[trigger] order[i] < count
    &&& forall|k: int| 0 <= k < count ==> order.contains(k)
    &&& forall|i: int, j: int|
        0 <= i < j < order.len() ==> comes_before(dates, #[trigger] order[i], #[trigger] order[j])
}

/// How many entries at the start of `order` are of a day not earlier than
/// `date`: where a new post of that day goes.
pub open spec fn insertion_point(dates: Seq<Ymd>, order: Seq<int>, date: Ymd) -> int
    decreases order.len(),
{
    if order.len() == 0 || later(date, dates[order[0]]) {
        0
    } else {
        1 + insertion_point(dates, order.skip(1), date)
    }
}

/// The indices of the first `count` posts, listed by recency.
pub open spec fn recency_order_upto(dates: Seq<Ymd>, count: nat) -> Seq<int>
    decreases count,
{
    if count == 0 {
        Seq::empty()
    } else {
        let earlier = recency_order_upto(dates, (count - 1) as nat);
        earlier.insert(insertion_point(dates, earlier, dates[count - 1]), count - 1)
    }
}

/// The indices of all posts, listed by recency.
pub open spec fn recency_order(dates: Seq<Ymd>) -> Seq<int> {
    recency_order_upto(dates, dates.len())
}

/// The indices of the `count` most recent posts, or of all posts where there
/// are fewer.
pub open spec fn most_recent(dates: Seq<Ymd>, count: int) -> Seq<int> {
    recency_order(dates).take(
        if count < 0 {
            0
        } else if count < dates.len() {
            count
        } else {
            dates.len() as int
        },
    )
}

/// Of two days, one is later than the other or they are the same day.
pub proof fn days_are_ordered(a: Ymd, b: Ymd)
    ensures
        later(a, b) || later(b, a) || a == b,
        !(later(a, b) && later(b, a)),
        !later(a, a),
{
}

/// A position with no earlier day before it and an earlier day at it is the
/// insertion point.
proof fn insertion_point_found(dates: Seq<Ymd>, order: Seq<int>, date: Ymd, at: int)
    requires
        0 <= at <= order.len(),
        forall|j: int| 0 <= j < at ==> !later(date, dates[#[trigger] order[j]]),
        at < order.len() ==> later(date, dates[order[at]]),
    ensures
        insertion_point(dates, order, date) == at,
    decreases order.len(),
{
    if at > 0 {
        let rest = order.skip(1);
        assert(!later(date, dates[order[0]]));
        assert forall|j: int| 0 <= j < at - 1 implies !later(date, dates[#[trigger] rest[j]]) by {
            assert(rest[j] == order[j + 1]);
        }
        insertion_point_found(dates, rest, date, at - 1);
    }
}

/// The insertion point lies within the order, after all entries of days not
/// earlier than `date` and at an entry of an earlier day.
proof fn insertion_point_bounds(dates: Seq<Ymd>, order: Seq<int>, date: Ymd)
    ensures
        0 <= insertion_point(dates, order, date) <= order.len(),
        forall|j: int|
            0 <= j < insertion_point(dates, order, date) ==> !later(
                date,
                dates[#[trigger] order[j]],
            ),
        insertion_point(dates, order, date) < order.len() ==> later(
            date,
            dates[order[insertion_point(dates, order, date)]],
        ),
    decreases order.len(),
{
    if !(order.len() == 0 || later(date, dates[order[0]])) {
        let rest = order.skip(1);
        insertion_point_bounds(dates, rest, date);
        let at = insertion_point(dates, rest, date);
        assert forall|j: int| 0 <= j < at + 1 implies !later(date, dates[#[trigger] order[j]]) by {
            if j > 0 {
                assert(order[j] == rest[j - 1]);
            }
        }
        if at < rest.len() {
            assert(rest[at] == order[at + 1]);
        }
    }
}

/// The recency order of the first `count` posts lists them by recency.
proof fn recency_order_upto_lists(dates: Seq<Ymd>, count: nat)
    requires
        count <= dates.len(),
    ensures
        lists_by_recency(dates, count as int, recency_order_upto(dates, count)),
    decreases count,
{
    if count > 0 {
        let earlier = recency_order_upto(dates, (count - 1) as nat);
        let newest = count - 1;
        let date = dates[newest];
        let at = insertion_point(dates, earlier, date);
        let order = recency_order_upto(dates, count);
        recency_order_upto_lists(dates, (count - 1) as nat);
        insertion_point_bounds(dates, earlier, date);
        assert(order == earlier.insert(at, newest));
        assert(order.len() == count);
        assert forall|i: int| 0 <= i < order.len() implies 0 <= #[trigger] order[i] < count by {
            if i < at {
                assert(order[i] == earlier[i]);
            } else if i > at {
                assert(order[i] == earlier[i - 1]);
            }
        }
        assert forall|k: int| 0 <= k < count implies order.contains(k) by {
            if k == newest {
                assert(order[at] == k);
            } else {
                assert(earlier.contains(k));
                let i = choose|i: int| 0 <= i < earlier.len() && earlier[i] == k;
                if i < at {
                    assert(order[i] == k);
                } else {
                    assert(order[i + 1] == k);
                }
            }
        }
        assert forall|i: int, j: int| 0 <= i < j < order.len() implies comes_before(
            dates,
            #[trigger] order[i],
            #[trigger] order[j],
        ) by {
            if j < at {
                assert(order[i] == earlier[i] && order[j] == earlier[j]);
            } else if i > at {
                assert(order[i] == earlier[i - 1] && order[j] == earlier[j - 1]);
            } else if i < at && j > at {
                assert(order[i] == earlier[i] && order[j] == earlier[j - 1]);
            } else if j == at {
                // An entry before the newest post is of a day not earlier,
                // and was met earlier.
                assert(order[i] == earlier[i]);
                assert(!later(date, dates[earlier[i]]));
                days_are_ordered(date, dates[earlier[i]]);
            } else {
                // An entry after the newest post is of an earlier day.
                assert(i == at && j > at);
                assert(order[j] == earlier[j - 1]);
                assert(later(date, dates[earlier[at]]));
                if j - 1 > at {
                    assert(comes_before(dates, earlier[at], earlier[j - 1]));
                }
            }
        }
    }
}

/// The recency order lists all posts by recency: each post once, a later day
/// before an earlier one, and posts of one day as they were met.
pub proof fn recency_order_lists(dates: Seq<Ymd>)
    ensures
        lists_by_recency(dates, dates.len() as int, recency_order(dates)),
{
    recency_order_upto_lists(dates, dates.len());
}

/// There is one listing by recency only.
pub proof fn recency_order_is_unique(dates: Seq<Ymd>, order: Seq<int>)
    requires
        lists_by_recency(dates, dates.len() as int, order),
    ensures
        order == recency_order(dates),
{
    let other = recency_order(dates);
    recency_order_lists(dates);
    assert forall|i: int| 0 <= i < order.len() implies order[i] == other[i] by {
        differs_nowhere(dates, order, other, i);
    }
    assert(order =~= other);
}

/// Two listings by recency hold the same index at every position.
proof fn differs_nowhere(dates: Seq<Ymd>, first: Seq<int>, second: Seq<int>, at: int)
    requires
        lists_by_recency(dates, dates.len() as int, first),
        lists_by_recency(dates, dates.len() as int, second),
        0 <= at < dates.len(),
    ensures
        first[at] == second[at],
    decreases at,
{
    assert forall|j: int| 0 <= j < at implies first[j] == second[j] by {
        differs_nowhere(dates, first, second, j);
    }
    let x = first[at];
    let y = second[at];
    if x != y {
        days_are_ordered(dates[x], dates[y]);
        if comes_before(dates, x, y) {
            // `x` stands somewhere in `second`, and neither before nor
            // after `y`.
            assert(second.contains(x));
            let p = choose|p: int| 0 <= p < second.len() && second[p] == x;
            if p < at {
                assert(first[p] == x);
                assert(comes_before(dates, first[p], first[at]));
            } else {
                assert(comes_before(dates, second[at], second[p]));
            }
        } else {
            assert(comes_before(dates, y, x));
            assert(first.contains(y));
            let p = choose|p: int| 0 <= p < first.len() && first[p] == y;
            if p < at {
                assert(second[p] == y);
                assert(comes_before(dates, second[p], second[at]));
            } else {
                assert(comes_before(dates, first[at], first[p]));
            }
        }
    }
}

/// The listing of the `count` most recent posts holds `count` posts, or all
/// where there are fewer; it holds them latest first, posts of one day as they
/// were met; and every post that it leaves out comes after each that it holds.
pub proof fn most_recent_are_the_latest(dates: Seq<Ymd>, count: nat)
    ensures
        ({
            let listed = most_recent(dates, count as int);
            &&& listed.len() == if count < dates.len() {
                count
            } else {
                dates.len()
            }
            &&& forall|i: int| 0 <= i < listed.len() ==> 0 <= #[trigger] listed[i] < dates.len()
            &&& forall|i: int, j: int|
                0 <= i < j < listed.len() ==> #[trigger] comes_before(dates, listed[i], listed[j])
            &&& forall|i: int, k: int|
                0 <= i < listed.len() && 0 <= k < dates.len() && !listed.contains(k)
                    ==> #[trigger] comes_before(dates, listed[i], k)
        }),
{
    let order = recency_order(dates);
    let listed = most_recent(dates, count as int);
    recency_order_lists(dates);
    assert forall|i: int| 0 <= i < listed.len() implies listed[i] == order[i] by {}
    assert forall|i: int, k: int|
        0 <= i < listed.len() && 0 <= k < dates.len() && !listed.contains(
            k,
        ) implies #[trigger] comes_before(dates, listed[i], k) by {
        assert(order.contains(k));
        let p = choose|p: int| 0 <= p < order.len() && order[p] == k;
        if p < listed.len() {
            assert(listed[p] == k);
        }
        assert(comes_before(dates, order[i], order[p]));
    }
}

/// The indices of `posts`, listed by recency.
pub fn recency_order_of(posts: &Vec<Post>) -> (order: Vec<usize>)
    ensures
        indices(order@) == recency_order(dates_of(post_views(posts@))),
        order@.len() == posts@.len(),
        forall|i: int| 0 <= i < order@.len() ==> #[trigger] order@[i] < posts@.len(),
{
    let ghost dates = dates_of(post_views(posts@));
    let mut order: Vec<usize> = Vec::new();
    let mut n: usize = 0;
    assert(indices(order@) =~= recency_order_upto(dates, 0));
    while n < posts.len()
        invariant
            n <= posts.len(),
            dates == dates_of(post_views(posts@)),
            order@.len() == n,
            forall|i: int| 0 <= i < order@.len() ==> #[trigger] order@[i] < n,
            indices(order@) == recency_order_upto(dates, n as nat),
        decreases posts.len() - n,
    {
        let date = posts[n].metadata.date;
        let mut at: usize = 0;
        while at < order.len() && !date.is_after(&posts[order[at]].metadata.date)
            invariant
                at <= order.len(),
                n < posts.len(),
                dates == dates_of(post_views(posts@)),
                date@ == dates[n as int],
                forall|i: int| 0 <= i < order@.len() ==> #[trigger] order@[i] < n,
                forall|j: int|
                    0 <= j < at ==> !later(date@, dates[#[trigger] indices(order@)[j]]),
            decreases order.len() - at,
        {
            at = at + 1;
        }
        proof {
            insertion_point_found(dates, indices(order@), date@, at as int);
        }
        let ghost before = order@;
        order.insert(at, n);
        proof {
            assert(indices(order@) =~= indices(before).insert(at as int, n as int));
            assert forall|i: int| 0 <= i < order@.len() implies #[trigger] order@[i] < n + 1 by {
                if i < at {
                    assert(order@[i] == before[i]);
                } else if i > at {
                    assert(order@[i] == before[i - 1]);
                }
            }
        }
        n = n + 1;
    }
    order
}

} // verus!
