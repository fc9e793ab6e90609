//! The archive of all posts, grouped by the year of their dates.

use crate::date::Ymd;
use crate::order::{
    comes_before, dates_of, indices, lists_by_recency, recency_order, recency_order_lists,
    recency_order_of,
};
use crate::posts::{post_views, Post, PostView};
use crate::text::{decimal, decimal_text};
use vstd::prelude::*;
use vstd::string::StringExecFns;

verus! {

/// The posts of one year.
#[derive(Debug)]
pub struct YearGroup {
    /// The year.
    pub year: i32,
    /// The indices of the posts of that year.
    pub posts: Vec<usize>,
}

/// What a `YearGroup` stands for.
pub struct YearGroupView {
    pub year: int,
    pub posts: Seq<int>,
}

impl View for YearGroup {
    type V = YearGroupView;

    open spec fn view(&self) -> YearGroupView {
        YearGroupView { year: self.year as int, posts: indices(self.posts@) }
    }
}

/// What each of `groups` stands for, in order.
pub open spec fn group_views(groups: Seq<YearGroup>) -> Seq<YearGroupView> {
    groups.map_values(|g: YearGroup| g@)
}

/// The posts at the indices `order` in groups: each run of posts of one year
/// makes a group.
pub open spec fn year_groups_of(dates: Seq<Ymd>, order: Seq<int>) -> Seq<YearGroupView>
    decreases order.len(),
{
    if order.len() == 0 {
        Seq::empty()
    } else {
        let groups = year_groups_of(dates, order.drop_last());
        let year = dates[order.last()].year;
        if groups.len() > 0 && groups.last().year == year {
            groups.drop_last().push(
                YearGroupView { year, posts: groups.last().posts.push(order.last()) },
            )
        } else {
            groups.push(YearGroupView { year, posts: seq![order.last()] })
        }
    }
}

/// The posts in groups by year: the posts by recency, cut where the year
/// changes.
pub open spec fn year_groups(dates: Seq<Ymd>) -> Seq<YearGroupView> {
    year_groups_of(dates, recency_order(dates))
}

/// Whether group `g` of `groups` has a post at position `j`.
pub open spec fn has_slot(groups: Seq<YearGroupView>, g: int, j: int) -> bool {
    0 <= g < groups.len() && 0 <= j < groups[g].posts.len()
}

/// Whether the post at index `k` stands in one of `groups`.
pub open spec fn stands_in(groups: Seq<YearGroupView>, k: int) -> bool {
    exists|g: int, j: int| #[trigger] has_slot(groups, g, j) && groups[g].posts[j] == k
}

/// Whether `groups` part the posts by year: the years fall from group to
/// group, every post of a group is of the group's year, and every post
/// stands in one place of one group. Within a group the posts stand by
/// recency.
pub open spec fn partitions_by_year(dates: Seq<Ymd>, groups: Seq<YearGroupView>) -> bool {
    &&& forall|g: int, h: int|
        0 <= g < h < groups.len() ==> (#[trigger] groups[g]).year > (#[trigger] groups[h]).year
    &&& forall|g: int, j: int| #[trigger]
        has_slot(groups, g, j) ==> 0 <= groups[g].posts[j] < dates.len()
            && dates[groups[g].posts[j]].year == groups[g].year
    &&& forall|k: int| 0 <= k < dates.len() ==> #[trigger] stands_in(groups, k)
    &&& forall|g: int, j: int, h: int, i: int|
        #[trigger] has_slot(groups, g, j) && #[trigger] has_slot(groups, h, i)
            && groups[g].posts[j] == groups[h].posts[i] ==> g == h && j == i
    &&& forall|g: int, i: int, j: int|
        0 <= i < j && #[trigger] has_slot(groups, g, i) && #[trigger] has_slot(groups, g, j)
            ==> comes_before(dates, groups[g].posts[i], groups[g].posts[j])
}

/// Whether `order` holds indices of `dates`, each before all that it comes
/// before.
spec fn is_listing(dates: Seq<Ymd>, order: Seq<int>) -> bool {
    &&& forall|i: int| 0 <= i < order.len() ==> 0 <= #[trigger] order[i] < dates.len()
    &&& forall|i: int, j: int|
        0 <= i < j < order.len() ==> comes_before(dates, #[trigger] order[i], #[trigger] order[j])
}

/// What holds of the groups made of a listing `order`.
spec fn groups_hold(dates: Seq<Ymd>, order: Seq<int>, groups: Seq<YearGroupView>) -> bool {
    &&& forall|g: int, h: int|
        0 <= g < h < groups.len() ==> (#[trigger] groups[g]).year > (#[trigger] groups[h]).year
    &&& forall|g: int, j: int| #[trigger]
        has_slot(groups, g, j) ==> order.contains(groups[g].posts[j])
            && dates[groups[g].posts[j]].year == groups[g].year
    &&& forall|p: int| 0 <= p < order.len() ==> stands_in(groups, #[trigger] order[p])
    &&& forall|g: int, j: int, h: int, i: int|
        #[trigger] has_slot(groups, g, j) && #[trigger] has_slot(groups, h, i)
            && groups[g].posts[j] == groups[h].posts[i] ==> g == h && j == i
    &&& forall|g: int, i: int, j: int|
        0 <= i < j && #[trigger] has_slot(groups, g, i) && #[trigger] has_slot(groups, g, j)
            ==> comes_before(dates, groups[g].posts[i], groups[g].posts[j])
    &&& forall|g: int| 0 <= g < groups.len() ==> (#[trigger] groups[g]).posts.len() > 0
    &&& order.len() > 0 ==> groups.len() > 0 && groups.last().year == dates[order.last()].year
        && groups.last().posts.last() == order.last()
    &&& order.len() == 0 ==> groups.len() == 0
}

/// The groups made of a listing hold what `groups_hold` says.
proof fn year_groups_of_hold(dates: Seq<Ymd>, order: Seq<int>)
    requires
        is_listing(dates, order),
    ensures
        groups_hold(dates, order, year_groups_of(dates, order)),
    decreases order.len(),
{
    if order.len() > 0 {
        let before = order.drop_last();
        let old = year_groups_of(dates, before);
        let new = year_groups_of(dates, order);
        let k = order.last();
        let year = dates[k].year;
        let last = old.len() - 1;
        assert(is_listing(dates, before)) by {
            assert forall|i: int, j: int| 0 <= i < j < before.len() implies comes_before(
                dates,
                #[trigger] before[i],
                #[trigger] before[j],
            ) by {
                assert(before[i] == order[i] && before[j] == order[j]);
            }
        }
        year_groups_of_hold(dates, before);
        // What the listing holds before its last entry stands before it, so
        // it is another post and of no earlier year.
        assert forall|m: int| before.contains(m) implies m != k && dates[m].year >= year
            && comes_before(dates, m, k) && order.contains(m) by {
            let q = choose|q: int| 0 <= q < before.len() && before[q] == m;
            assert(order[q] == m);
            assert(comes_before(dates, order[q], order[order.len() - 1]));
        }
        assert(order.contains(k)) by {
            assert(order[order.len() - 1] == k);
        }
        if old.len() > 0 && old.last().year == year {
            let grown = YearGroupView { year, posts: old.last().posts.push(k) };
            assert(new == old.drop_last().push(grown));
            assert(new.len() == old.len());
            assert(new[last] == grown);
            assert forall|g: int| 0 <= g < last implies new[g] == old[g] by {}
            let filled = old.last().posts.len() as int;
            assert forall|g: int, j: int| #[trigger] has_slot(new, g, j) implies (if g == last && j
                == filled {
                new[g].posts[j] == k
            } else {
                has_slot(old, g, j) && new[g].posts[j] == old[g].posts[j]
            }) && new[g].year == (if g == last {
                year
            } else {
                old[g].year
            }) by {}
            assert forall|g: int, h: int| 0 <= g < h < new.len() implies (#[trigger] new[g]).year > (
            #[trigger] new[h]).year by {
                assert(old[g].year > old[h].year);
            }
            assert forall|g: int, j: int| #[trigger] has_slot(new, g, j) implies order.contains(
                new[g].posts[j],
            ) && dates[new[g].posts[j]].year == new[g].year by {
                if !(g == last && j == filled) {
                    assert(has_slot(old, g, j));
                }
            }
            assert forall|p: int| 0 <= p < order.len() implies stands_in(
                new,
                #[trigger] order[p],
            ) by {
                if p < before.len() {
                    assert(before[p] == order[p]);
                    assert(stands_in(old, before[p]));
                    let (g, j) = choose|g: int, j: int| #[trigger]
                        has_slot(old, g, j) && old[g].posts[j] == before[p];
                    assert(has_slot(new, g, j) && new[g].posts[j] == order[p]);
                } else {
                    assert(has_slot(new, last, filled) && new[last].posts[filled] == order[p]);
                }
            }
            assert forall|g: int, j: int, h: int, i: int| #[trigger]
                has_slot(new, g, j) && #[trigger] has_slot(new, h, i) && new[g].posts[j]
                    == new[h].posts[i] implies g == h && j == i by {
                if g == last && j == filled {
                    if !(h == last && i == filled) {
                        assert(has_slot(old, h, i));
                        assert(before.contains(old[h].posts[i]));
                    }
                } else if h == last && i == filled {
                    assert(has_slot(old, g, j));
                    assert(before.contains(old[g].posts[j]));
                } else {
                    assert(has_slot(old, g, j) && has_slot(old, h, i));
                }
            }
            assert forall|g: int, i: int, j: int|
                0 <= i < j && #[trigger] has_slot(new, g, i) && #[trigger] has_slot(
                    new,
                    g,
                    j,
                ) implies comes_before(dates, new[g].posts[i], new[g].posts[j]) by {
                assert(has_slot(old, g, i));
                if g == last && j == filled {
                    assert(before.contains(old[g].posts[i]));
                } else {
                    assert(has_slot(old, g, j));
                }
            }
            assert forall|g: int| 0 <= g < new.len() implies (#[trigger] new[g]).posts.len()
                > 0 by {
                if g < last {
                    assert(old[g].posts.len() > 0);
                }
            }
            assert(groups_hold(dates, order, new));
        } else {
            let fresh = YearGroupView { year, posts: seq![k] };
            assert(new == old.push(fresh));
            let at = old.len() as int;
            assert(new[at] == fresh);
            assert forall|g: int| 0 <= g < at implies new[g] == old[g] by {}
            assert forall|g: int, j: int| #[trigger] has_slot(new, g, j) implies if g == at {
                j == 0 && new[g].posts[j] == k && new[g].year == year
            } else {
                has_slot(old, g, j) && new[g].posts[j] == old[g].posts[j] && new[g].year
                    == old[g].year
            } by {}
            assert forall|g: int, h: int| 0 <= g < h < new.len() implies (#[trigger] new[g]).year > (
            #[trigger] new[h]).year by {
                if h == at {
                    // The last group before is of the year of the entry
                    // before, which is later than this one.
                    assert(before.len() > 0);
                    assert(before.contains(before.last())) by {
                        assert(before[before.len() - 1] == before.last());
                    }
                    assert(old.last().year > year);
                    if g < last {
                        assert(old[g].year > old[last].year);
                    }
                } else {
                    assert(old[g].year > old[h].year);
                }
            }
            assert forall|g: int, j: int| #[trigger] has_slot(new, g, j) implies order.contains(
                new[g].posts[j],
            ) && dates[new[g].posts[j]].year == new[g].year by {
                if g != at {
                    assert(has_slot(old, g, j));
                }
            }
            assert forall|p: int| 0 <= p < order.len() implies stands_in(
                new,
                #[trigger] order[p],
            ) by {
                if p < before.len() {
                    assert(before[p] == order[p]);
                    assert(stands_in(old, before[p]));
                    let (g, j) = choose|g: int, j: int| #[trigger]
                        has_slot(old, g, j) && old[g].posts[j] == before[p];
                    assert(has_slot(new, g, j) && new[g].posts[j] == order[p]);
                } else {
                    assert(has_slot(new, at, 0) && new[at].posts[0] == order[p]);
                }
            }
            assert forall|g: int, j: int, h: int, i: int| #[trigger]
                has_slot(new, g, j) && #[trigger] has_slot(new, h, i) && new[g].posts[j]
                    == new[h].posts[i] implies g == h && j == i by {
                if g == at {
                    if h != at {
                        assert(has_slot(old, h, i));
                        assert(before.contains(old[h].posts[i]));
                    }
                } else if h == at {
                    assert(has_slot(old, g, j));
                    assert(before.contains(old[g].posts[j]));
                } else {
                    assert(has_slot(old, g, j) && has_slot(old, h, i));
                }
            }
            assert forall|g: int, i: int, j: int|
                0 <= i < j && #[trigger] has_slot(new, g, i) && #[trigger] has_slot(
                    new,
                    g,
                    j,
                ) implies comes_before(dates, new[g].posts[i], new[g].posts[j]) by {
                if g != at {
                    assert(has_slot(old, g, i) && has_slot(old, g, j));
                }
            }
            assert forall|g: int| 0 <= g < new.len() implies (#[trigger] new[g]).posts.len()
                > 0 by {
                if g < at {
                    assert(old[g].posts.len() > 0);
                }
            }
            assert(groups_hold(dates, order, new));
        }
    }
}

/// Grouping by year parts the posts: every post stands in one group, the
/// group of the year of its date, and the groups run from the latest year to
/// the earliest.
pub proof fn year_groups_partition(dates: Seq<Ymd>)
    ensures
        partitions_by_year(dates, year_groups(dates)),
{
    let order = recency_order(dates);
    let groups = year_groups(dates);
    recency_order_lists(dates);
    assert(is_listing(dates, order));
    year_groups_of_hold(dates, order);
    assert forall|g: int, j: int| #[trigger] has_slot(groups, g, j) implies 0
        <= groups[g].posts[j] < dates.len() && dates[groups[g].posts[j]].year
        == groups[g].year by {
        let m = groups[g].posts[j];
        assert(order.contains(m));
        let q = choose|q: int| 0 <= q < order.len() && order[q] == m;
        assert(0 <= order[q] < dates.len());
    }
    assert forall|k: int| 0 <= k < dates.len() implies #[trigger] stands_in(groups, k) by {
        assert(order.contains(k));
        let p = choose|p: int| 0 <= p < order.len() && order[p] == k;
        assert(stands_in(groups, order[p]));
    }
}

/// The entry of a post in the archive: a link to the post that shows its
/// title.
pub open spec fn archive_item(post: PostView) -> Seq<char> {
    "<li><a href=\""@ + post.path + "\">"@ + post.metadata.title + "</a></li>\n"@
}

/// The archive entries of the posts at the indices `members`, in that order.
pub open spec fn archive_items(posts: Seq<PostView>, members: Seq<int>) -> Seq<char>
    decreases members.len(),
{
    if members.len() == 0 {
        Seq::empty()
    } else {
        archive_items(posts, members.drop_last()) + archive_item(posts[members.last()])
    }
}

/// The block of one year in the archive: the year as a heading, then the
/// list of its posts.
pub open spec fn year_block(posts: Seq<PostView>, group: YearGroupView) -> Seq<char> {
    "<h2>"@ + decimal(group.year) + "</h2>\n<ul>\n"@ + archive_items(posts, group.posts)
        + "</ul>\n"@
}

/// The blocks of `groups`, one after another.
pub open spec fn year_blocks(posts: Seq<PostView>, groups: Seq<YearGroupView>) -> Seq<char>
    decreases groups.len(),
{
    if groups.len() == 0 {
        Seq::empty()
    } else {
        year_blocks(posts, groups.drop_last()) + year_block(posts, groups.last())
    }
}

/// The archive of all posts: a block for each year that has posts, the
/// latest year first, and in each block the posts of that year, the latest
/// first.
pub open spec fn all_posts_html(posts: Seq<PostView>) -> Seq<char> {
    year_blocks(posts, year_groups(dates_of(posts)))
}

/// Groups `posts` by the year of their dates: the latest year first, and in
/// each group the latest post first, posts of one day in the order of
/// `posts`.
pub fn group_by_year(posts: &Vec<Post>) -> (groups: Vec<YearGroup>)
    ensures
        group_views(groups@) == year_groups(dates_of(post_views(posts@))),
        forall|g: int, j: int|
            0 <= g < groups@.len() && 0 <= j < groups@[g].posts@.len()
                ==> #[trigger] groups@[g].posts@[j] < posts@.len(),
{
    let ghost dates = dates_of(post_views(posts@));
    let order = recency_order_of(posts);
    let mut groups: Vec<YearGroup> = Vec::new();
    let mut i: usize = 0;
    proof {
        assert(indices(order@).take(0) =~= Seq::<int>::empty());
        assert(group_views(groups@) =~= year_groups_of(dates, indices(order@).take(0)));
    }
    while i < order.len()
        invariant
            i <= order@.len(),
            dates == dates_of(post_views(posts@)),
            forall|j: int| 0 <= j < order@.len() ==> #[trigger] order@[j] < posts@.len(),
            group_views(groups@) == year_groups_of(dates, indices(order@).take(i as int)),
            forall|g: int, j: int|
                0 <= g < groups@.len() && 0 <= j < groups@[g].posts@.len()
                    ==> #[trigger] groups@[g].posts@[j] < posts@.len(),
        decreases order@.len() - i,
    {
        let k = order[i];
        let year = posts[k].metadata.date.year();
        let ghost before = groups@;
        let ghost listed = indices(order@).take(i + 1);
        proof {
            assert(listed.drop_last() =~= indices(order@).take(i as int));
            assert(listed.last() == k as int);
            assert(dates[k as int].year == year as int);
            if before.len() > 0 {
                assert(group_views(before).last() == before.last()@);
            }
        }
        if groups.len() > 0 && groups[groups.len() - 1].year == year {
            let mut last = groups.pop().unwrap();
            let ghost members = last.posts@;
            last.posts.push(k);
            groups.push(last);
            proof {
                assert(indices(last.posts@) =~= indices(members).push(k as int));
                assert(group_views(groups@) =~= group_views(before).drop_last().push(
                    YearGroupView {
                        year: year as int,
                        posts: group_views(before).last().posts.push(k as int),
                    },
                ));
                assert forall|g: int, j: int|
                    0 <= g < groups@.len() && 0 <= j
                        < groups@[g].posts@.len() implies #[trigger] groups@[g].posts@[j]
                    < posts@.len() by {
                    if g < groups@.len() - 1 {
                        assert(groups@[g] == before[g]);
                    } else if j < members.len() {
                        assert(groups@[g].posts@[j] == before[g].posts@[j]);
                    }
                }
            }
        } else {
            let mut members: Vec<usize> = Vec::new();
            members.push(k);
            groups.push(YearGroup { year, posts: members });
            proof {
                assert(indices(members@) =~= seq![k as int]);
                assert(group_views(groups@) =~= group_views(before).push(
                    YearGroupView { year: year as int, posts: seq![k as int] },
                ));
                assert forall|g: int, j: int|
                    0 <= g < groups@.len() && 0 <= j
                        < groups@[g].posts@.len() implies #[trigger] groups@[g].posts@[j]
                    < posts@.len() by {
                    if g < groups@.len() - 1 {
                        assert(groups@[g] == before[g]);
                    }
                }
            }
        }
        i = i + 1;
    }
    proof {
        assert(indices(order@).take(i as int) =~= indices(order@));
    }
    groups
}

/// Appends the archive entries of the posts at `members` to `out`.
fn push_archive_items(out: &mut String, posts: &Vec<Post>, members: &Vec<usize>)
    requires
        forall|j: int| 0 <= j < members@.len() ==> #[trigger] members@[j] < posts@.len(),
    ensures
        final(out)@ == old(out)@ + archive_items(post_views(posts@), indices(members@)),
{
    let ghost views = post_views(posts@);
    let ghost all = indices(members@);
    let mut i: usize = 0;
    proof {
        assert(all.take(0) =~= Seq::<int>::empty());
        assert(out@ =~= old(out)@ + archive_items(views, all.take(0)));
    }
    while i < members.len()
        invariant
            i <= members@.len(),
            views == post_views(posts@),
            all == indices(members@),
            forall|j: int| 0 <= j < members@.len() ==> #[trigger] members@[j] < posts@.len(),
            out@ == old(out)@ + archive_items(views, all.take(i as int)),
        decreases members@.len() - i,
    {
        let post = &posts[members[i]];
        let ghost before = out@;
        out.append("<li><a href=\"");
        out.append(post.path.as_str());
        out.append("\">");
        out.append(post.metadata.title.as_str());
        out.append("</a></li>\n");
        proof {
            let next = all.take(i + 1);
            assert(next.drop_last() =~= all.take(i as int));
            assert(next.last() == members@[i as int] as int);
            assert(views[members@[i as int] as int] == post@);
            assert(out@ =~= before + archive_item(post@));
            assert(out@ =~= old(out)@ + archive_items(views, next));
        }
        i = i + 1;
    }
    proof {
        assert(all.take(i as int) =~= all);
    }
}

/// The archive of all posts as HTML: for each year that has posts a heading
/// with the year and the list of its posts; the latest year first, and in
/// each list the latest post first, posts of one day in the order of `posts`.
pub fn group_by_year_as_html(posts: &Vec<Post>) -> (html: String)
    ensures
        html@ == all_posts_html(post_views(posts@)),
{
    let ghost views = post_views(posts@);
    let groups = group_by_year(posts);
    let ghost all = group_views(groups@);
    let mut html = String::new();
    let mut g: usize = 0;
    proof {
        assert(all.take(0) =~= Seq::<YearGroupView>::empty());
        assert(html@ =~= year_blocks(views, all.take(0)));
    }
    while g < groups.len()
        invariant
            g <= groups@.len(),
            views == post_views(posts@),
            all == group_views(groups@),
            forall|h: int, j: int|
                0 <= h < groups@.len() && 0 <= j < groups@[h].posts@.len()
                    ==> #[trigger] groups@[h].posts@[j] < posts@.len(),
            html@ == year_blocks(views, all.take(g as int)),
        decreases groups@.len() - g,
    {
        let group = &groups[g];
        let ghost before = html@;
        let year = decimal_text(group.year);
        html.append("<h2>");
        html.append(year.as_str());
        html.append("</h2>\n<ul>\n");
        assert forall|j: int| 0 <= j < group.posts@.len() implies #[trigger] group.posts@[j]
            < posts@.len() by {
            assert(groups@[g as int].posts@[j] < posts@.len());
        }
        push_archive_items(&mut html, posts, &group.posts);
        html.append("</ul>\n");
        proof {
            let next = all.take(g + 1);
            assert(next.drop_last() =~= all.take(g as int));
            assert(next.last() == group@);
            assert(html@ =~= before + year_block(views, group@));
        }
        g = g + 1;
    }
    proof {
        assert(all.take(g as int) =~= all);
    }
    html
}

} // verus!
