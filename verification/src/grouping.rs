//! The grouping of posts by the categories that they name.

use crate::category::{category_path, Category, CategoryView};
use crate::posts::{post_views, Post, PostView};
use vstd::prelude::*;

verus! {

/// What each category of `groups` stands for, with what its posts stand
/// for, in order.
pub open spec fn category_views(groups: Seq<(Category, Vec<Post>)>) -> Seq<
    (CategoryView, Seq<PostView>),
> {
    groups.map_values(|g: (Category, Vec<Post>)| (g.0@, post_views(g.1@)))
}

/// The index of the first of `groups` whose category is named `name`, or the
/// number of groups where there is none.
pub open spec fn group_index(groups: Seq<(CategoryView, Seq<PostView>)>, name: Seq<char>) -> int
    decreases groups.len(),
{
    if groups.len() == 0 || groups[0].0.name == name {
        0
    } else {
        1 + group_index(groups.skip(1), name)
    }
}

/// `groups` after `post` is filed under the category `name`: at the end of
/// the group of that name, or as the first post of a new, last group.
pub open spec fn filed_under(
    groups: Seq<(CategoryView, Seq<PostView>)>,
    name: Seq<char>,
    post: PostView,
) -> Seq<(CategoryView, Seq<PostView>)> {
    let g = group_index(groups, name);
    if g < groups.len() {
        groups.update(g, (groups[g].0, groups[g].1.push(post)))
    } else {
        groups.push((CategoryView { name, path: category_path(name) }, seq![post]))
    }
}

/// `groups` after `post` is filed under each of `names`, in order.
pub open spec fn filed(
    groups: Seq<(CategoryView, Seq<PostView>)>,
    post: PostView,
    names: Seq<Seq<char>>,
) -> Seq<(CategoryView, Seq<PostView>)>
    decreases names.len(),
{
    if names.len() == 0 {
        groups
    } else {
        filed_under(filed(groups, post, names.drop_last()), names.last(), post)
    }
}

/// The categories of `posts`, each with its posts: the categories in the
/// order in which the posts first name them, the posts of each in the order
/// of `posts`. A post stands under each category that it names, as often as
/// it names it.
pub open spec fn grouped_by_category(posts: Seq<PostView>) -> Seq<(CategoryView, Seq<PostView>)>
    decreases posts.len(),
{
    if posts.len() == 0 {
        Seq::empty()
    } else {
        filed(grouped_by_category(posts.drop_last()), posts.last(), posts.last().metadata.categories)
    }
}

/// Whether `groups` are well formed: no two categories have one name, each
/// has the file name that its name gives, and each holds a post.
pub open spec fn are_categories(groups: Seq<(CategoryView, Seq<PostView>)>) -> bool {
    &&& forall|g: int, h: int|
        0 <= g < h < groups.len() ==> (#[trigger] groups[g]).0.name != (#[trigger] groups[h]).0.name
    &&& forall|g: int|
        0 <= g < groups.len() ==> (#[trigger] groups[g]).0.path == category_path(groups[g].0.name)
    &&& forall|g: int| 0 <= g < groups.len() ==> (#[trigger] groups[g]).1.len() > 0
}

/// The group index is the index of a group of that name with none of that
/// name before it, or the number of groups where none has that name.
proof fn group_index_finds(groups: Seq<(CategoryView, Seq<PostView>)>, name: Seq<char>)
    ensures
        0 <= group_index(groups, name) <= groups.len(),
        group_index(groups, name) < groups.len() ==> groups[group_index(groups, name)].0.name
            == name,
        forall|g: int| 0 <= g < group_index(groups, name) ==> (#[trigger] groups[g]).0.name != name,
    decreases groups.len(),
{
    if !(groups.len() == 0 || groups[0].0.name == name) {
        let rest = groups.skip(1);
        group_index_finds(rest, name);
        let at = group_index(rest, name);
        if at < rest.len() {
            assert(rest[at] == groups[at + 1]);
        }
        assert forall|g: int| 0 <= g < at + 1 implies (#[trigger] groups[g]).0.name != name by {
            if g > 0 {
                assert(groups[g] == rest[g - 1]);
            }
        }
    }
}

/// A position with no group of that name before it, and a group of that
/// name at it if it is a position of a group, is the group index.
proof fn group_index_found(groups: Seq<(CategoryView, Seq<PostView>)>, name: Seq<char>, at: int)
    requires
        0 <= at <= groups.len(),
        forall|g: int| 0 <= g < at ==> (#[trigger] groups[g]).0.name != name,
        at < groups.len() ==> groups[at].0.name == name,
    ensures
        group_index(groups, name) == at,
    decreases groups.len(),
{
    if at > 0 {
        let rest = groups.skip(1);
        assert(groups[0].0.name != name);
        assert forall|g: int| 0 <= g < at - 1 implies (#[trigger] rest[g]).0.name != name by {
            assert(rest[g] == groups[g + 1]);
        }
        group_index_found(rest, name, at - 1);
    }
}

/// Filing a post keeps categories well formed.
proof fn filed_under_keeps_categories(
    groups: Seq<(CategoryView, Seq<PostView>)>,
    name: Seq<char>,
    post: PostView,
)
    requires
        are_categories(groups),
    ensures
        are_categories(filed_under(groups, name, post)),
{
    group_index_finds(groups, name);
    let at = group_index(groups, name);
    let new = filed_under(groups, name, post);
    if at < groups.len() {
        assert forall|g: int| 0 <= g < new.len() implies (#[trigger] new[g]).0 == groups[g].0 by {}
    } else {
        assert forall|g: int| 0 <= g < groups.len() implies #[trigger] new[g] == groups[g] by {}
    }
}

/// Filing a post under several names keeps categories well formed.
proof fn filed_keeps_categories(
    groups: Seq<(CategoryView, Seq<PostView>)>,
    post: PostView,
    names: Seq<Seq<char>>,
)
    requires
        are_categories(groups),
    ensures
        are_categories(filed(groups, post, names)),
    decreases names.len(),
{
    if names.len() > 0 {
        filed_keeps_categories(groups, post, names.drop_last());
        filed_under_keeps_categories(filed(groups, post, names.drop_last()), names.last(), post);
    }
}

/// The categories of any posts are well formed: one category for each name,
/// with the file name that the name gives, and with a post in it.
pub proof fn grouped_are_categories(posts: Seq<PostView>)
    ensures
        are_categories(grouped_by_category(posts)),
    decreases posts.len(),
{
    if posts.len() > 0 {
        grouped_are_categories(posts.drop_last());
        filed_keeps_categories(
            grouped_by_category(posts.drop_last()),
            posts.last(),
            posts.last().metadata.categories,
        );
    }
}

/// How often `names` holds `name`.
pub open spec fn times_named(names: Seq<Seq<char>>, name: Seq<char>) -> nat
    decreases names.len(),
{
    if names.len() == 0 {
        0
    } else {
        times_named(names.drop_last(), name) + if names.last() == name {
            1nat
        } else {
            0nat
        }
    }
}

/// `post`, `count` times.
pub open spec fn copies(post: PostView, count: nat) -> Seq<PostView> {
    Seq::new(count, |i: int| post)
}

/// The posts of `posts` that name the category `name`, in the order of
/// `posts`, each as often as it names it.
pub open spec fn posts_naming(posts: Seq<PostView>, name: Seq<char>) -> Seq<PostView>
    decreases posts.len(),
{
    if posts.len() == 0 {
        Seq::empty()
    } else {
        posts_naming(posts.drop_last(), name) + copies(
            posts.last(),
            times_named(posts.last().metadata.categories, name),
        )
    }
}

/// Whether one of `posts` names the category `name`.
pub open spec fn is_named(posts: Seq<PostView>, name: Seq<char>) -> bool {
    exists|i: int| 0 <= i < posts.len() && (#[trigger] posts[i]).metadata.categories.contains(name)
}

/// Whether one of `groups` is the category `name`.
pub open spec fn has_category(groups: Seq<(CategoryView, Seq<PostView>)>, name: Seq<char>) -> bool {
    exists|g: int| 0 <= g < groups.len() && (#[trigger] groups[g]).0.name == name
}

/// A name that `names` does not hold is named no times.
proof fn unnamed_is_named_no_times(names: Seq<Seq<char>>, name: Seq<char>)
    requires
        !names.contains(name),
    ensures
        times_named(names, name) == 0,
    decreases names.len(),
{
    if names.len() > 0 {
        assert(names[names.len() - 1] == names.last());
        assert forall|c: int| 0 <= c < names.drop_last().len() implies names.drop_last()[c]
            != name by {
            assert(names[c] == names.drop_last()[c]);
        }
        unnamed_is_named_no_times(names.drop_last(), name);
    }
}

/// No posts name a category that none of them names.
proof fn unnamed_has_no_posts(posts: Seq<PostView>, name: Seq<char>)
    requires
        !is_named(posts, name),
    ensures
        posts_naming(posts, name) == Seq::<PostView>::empty(),
    decreases posts.len(),
{
    if posts.len() > 0 {
        let earlier = posts.drop_last();
        assert(!posts[posts.len() - 1].metadata.categories.contains(name));
        assert(!is_named(earlier, name)) by {
            if is_named(earlier, name) {
                let i = choose|i: int|
                    0 <= i < earlier.len() && (#[trigger] earlier[i]).metadata.categories.contains(
                        name,
                    );
                assert(posts[i] == earlier[i]);
            }
        }
        unnamed_has_no_posts(earlier, name);
        unnamed_is_named_no_times(posts.last().metadata.categories, name);
        assert(posts_naming(posts, name) =~= Seq::<PostView>::empty());
    }
}

/// What filing a post under one name does to well-formed groups: the group
/// of that name gains the post at its end, or a new last group holds it
/// alone; all else stays.
proof fn filed_under_adds(
    groups: Seq<(CategoryView, Seq<PostView>)>,
    name: Seq<char>,
    post: PostView,
)
    requires
        are_categories(groups),
    ensures
        ({
            let new = filed_under(groups, name, post);
            &&& are_categories(new)
            &&& new.len() == if has_category(groups, name) {
                groups.len()
            } else {
                groups.len() + 1
            }
            &&& forall|h: int|
                0 <= h < groups.len() ==> (#[trigger] new[h]).0 == groups[h].0 && new[h].1
                    == if groups[h].0.name == name {
                    groups[h].1.push(post)
                } else {
                    groups[h].1
                }
            &&& !has_category(groups, name) ==> new.last().0.name == name && new.last().1
                == seq![post]
        }),
{
    group_index_finds(groups, name);
    filed_under_keeps_categories(groups, name, post);
    let at = group_index(groups, name);
    let new = filed_under(groups, name, post);
    if at < groups.len() {
        assert(has_category(groups, name)) by {
            assert(groups[at].0.name == name);
        }
        assert forall|h: int| 0 <= h < groups.len() implies (#[trigger] new[h]).0 == groups[h].0
            && new[h].1 == if groups[h].0.name == name {
            groups[h].1.push(post)
        } else {
            groups[h].1
        } by {
            if h < at {
                assert(groups[h].0.name != name);
            } else if h > at {
                assert(groups[at].0.name != groups[h].0.name);
            }
        }
    } else {
        assert(!has_category(groups, name)) by {
            if has_category(groups, name) {
                let g = choose|g: int| 0 <= g < groups.len() && (#[trigger] groups[g]).0.name == name;
                assert(groups[g].0.name != name);
            }
        }
        assert forall|h: int| 0 <= h < groups.len() implies (#[trigger] new[h]).0 == groups[h].0
            && new[h].1 == if groups[h].0.name == name {
            groups[h].1.push(post)
        } else {
            groups[h].1
        } by {
            assert(new[h] == groups[h]);
            assert(groups[h].0.name != name);
        }
    }
}

/// What filing a post under several names does to well-formed groups: each
/// group that was there gains the post as often as the names hold its name;
/// each new group is of one of the names, which no group had, and holds the
/// post as often as the names hold its name; and each of the names has a
/// group.
proof fn filed_adds(
    groups: Seq<(CategoryView, Seq<PostView>)>,
    post: PostView,
    names: Seq<Seq<char>>,
)
    requires
        are_categories(groups),
    ensures
        ({
            let new = filed(groups, post, names);
            &&& are_categories(new)
            &&& new.len() >= groups.len()
            &&& forall|h: int|
                0 <= h < groups.len() ==> (#[trigger] new[h]).0 == groups[h].0 && new[h].1
                    == groups[h].1 + copies(post, times_named(names, groups[h].0.name))
            &&& forall|h: int|
                groups.len() <= h < new.len() ==> names.contains((#[trigger] new[h]).0.name)
                    && !has_category(groups, new[h].0.name) && new[h].1 == copies(
                    post,
                    times_named(names, new[h].0.name),
                )
            &&& forall|c: int| 0 <= c < names.len() ==> has_category(new, #[trigger] names[c])
        }),
    decreases names.len(),
{
    let new = filed(groups, post, names);
    if names.len() == 0 {
        assert forall|h: int| 0 <= h < groups.len() implies (#[trigger] new[h]).0 == groups[h].0
            && new[h].1 == groups[h].1 + copies(post, times_named(names, groups[h].0.name)) by {
            assert(groups[h].1 + copies(post, 0) =~= groups[h].1);
        }
    } else {
        let shorter = names.drop_last();
        let name = names.last();
        let mid = filed(groups, post, shorter);
        filed_adds(groups, post, shorter);
        filed_under_adds(mid, name, post);
        assert(new == filed_under(mid, name, post));
        assert forall|h: int| 0 <= h < groups.len() implies (#[trigger] new[h]).0 == groups[h].0
            && new[h].1 == groups[h].1 + copies(post, times_named(names, groups[h].0.name)) by {
            assert(mid[h].0 == groups[h].0);
            let n = times_named(shorter, groups[h].0.name);
            if groups[h].0.name == name {
                assert(copies(post, n).push(post) =~= copies(post, n + 1));
                assert((groups[h].1 + copies(post, n)).push(post) =~= groups[h].1 + copies(
                    post,
                    n + 1,
                ));
            }
        }
        assert forall|h: int| groups.len() <= h < new.len() implies names.contains(
            (#[trigger] new[h]).0.name,
        ) && !has_category(groups, new[h].0.name) && new[h].1 == copies(
            post,
            times_named(names, new[h].0.name),
        ) by {
            if h < mid.len() {
                assert(new[h].0 == mid[h].0);
                let held = mid[h].0.name;
                assert(shorter.contains(held));
                let c = choose|c: int| 0 <= c < shorter.len() && shorter[c] == held;
                assert(names[c] == held);
                let n = times_named(shorter, held);
                if held == name {
                    assert(copies(post, n).push(post) =~= copies(post, n + 1));
                }
            } else {
                // The group is new by this name, which no group had and
                // which the names before do not hold.
                assert(!has_category(mid, name));
                assert(new[h] == new.last());
                assert(names[names.len() - 1] == name);
                assert(!has_category(groups, name)) by {
                    if has_category(groups, name) {
                        let g = choose|g: int|
                            0 <= g < groups.len() && (#[trigger] groups[g]).0.name == name;
                        assert(mid[g].0.name == name);
                    }
                }
                assert(!shorter.contains(name)) by {
                    if shorter.contains(name) {
                        let c = choose|c: int| 0 <= c < shorter.len() && shorter[c] == name;
                        assert(has_category(mid, shorter[c]));
                    }
                }
                unnamed_is_named_no_times(shorter, name);
                assert(seq![post] =~= copies(post, 1));
            }
        }
        assert forall|c: int| 0 <= c < names.len() implies has_category(
            new,
            #[trigger] names[c],
        ) by {
            if c < shorter.len() {
                assert(shorter[c] == names[c]);
                assert(has_category(mid, shorter[c]));
                let g = choose|g: int| 0 <= g < mid.len() && (#[trigger] mid[g]).0.name == names[c];
                assert(new[g].0.name == names[c]);
            } else if has_category(mid, name) {
                let g = choose|g: int| 0 <= g < mid.len() && (#[trigger] mid[g]).0.name == name;
                assert(new[g].0.name == name);
            } else {
                assert(new[new.len() - 1].0.name == name);
            }
        }
    }
}

/// The categories are those that the posts name, and each holds the posts
/// that name it: in the order of the posts, each as often as it names the
/// category.
pub proof fn categories_hold_their_posts(posts: Seq<PostView>)
    ensures
        forall|g: int|
            0 <= g < grouped_by_category(posts).len() ==> (#[trigger] grouped_by_category(
                posts,
            )[g]).1 == posts_naming(posts, grouped_by_category(posts)[g].0.name),
        forall|name: Seq<char>|
            #[trigger] has_category(grouped_by_category(posts), name) <==> is_named(posts, name),
    decreases posts.len(),
{
    let new = grouped_by_category(posts);
    if posts.len() == 0 {
        assert forall|name: Seq<char>| #[trigger]
            has_category(new, name) <==> is_named(posts, name) by {}
    } else {
        let earlier = posts.drop_last();
        let post = posts.last();
        let names = post.metadata.categories;
        let old = grouped_by_category(earlier);
        categories_hold_their_posts(earlier);
        grouped_are_categories(earlier);
        filed_adds(old, post, names);
        assert(posts[posts.len() - 1] == post);
        // A name is named by the earlier posts or by the last one.
        assert forall|name: Seq<char>| is_named(posts, name) <==> (is_named(earlier, name)
            || names.contains(name)) by {
            if is_named(earlier, name) {
                let i = choose|i: int|
                    0 <= i < earlier.len() && (#[trigger] earlier[i]).metadata.categories.contains(
                        name,
                    );
                assert(posts[i] == earlier[i]);
            }
            if is_named(posts, name) {
                let i = choose|i: int|
                    0 <= i < posts.len() && (#[trigger] posts[i]).metadata.categories.contains(
                        name,
                    );
                if i < earlier.len() {
                    assert(earlier[i] == posts[i]);
                }
            }
        }
        assert forall|g: int| 0 <= g < new.len() implies (#[trigger] new[g]).1 == posts_naming(
            posts,
            new[g].0.name,
        ) by {
            if g < old.len() {
                assert(new[g].0 == old[g].0);
                assert(old[g].1 == posts_naming(earlier, old[g].0.name));
            } else {
                assert(!has_category(old, new[g].0.name));
                unnamed_has_no_posts(earlier, new[g].0.name);
                assert(Seq::<PostView>::empty() + new[g].1 =~= new[g].1);
            }
        }
        assert forall|name: Seq<char>| #[trigger]
            has_category(new, name) <==> is_named(posts, name) by {
            if has_category(new, name) {
                let g = choose|g: int| 0 <= g < new.len() && (#[trigger] new[g]).0.name == name;
                if g < old.len() {
                    assert(old[g].0.name == name);
                    assert(has_category(old, name));
                }
            }
            if is_named(earlier, name) {
                assert(has_category(old, name));
                let g = choose|g: int| 0 <= g < old.len() && (#[trigger] old[g]).0.name == name;
                assert(new[g].0.name == name);
            }
            if names.contains(name) {
                let c = choose|c: int| 0 <= c < names.len() && names[c] == name;
                assert(has_category(new, names[c]));
            }
        }
    }
}

/// The categories stand in the order in which the posts first name them:
/// the categories of the first `count` posts keep their places when the
/// posts after them are grouped too, and categories that only those name
/// follow.
pub proof fn categories_keep_their_places(posts: Seq<PostView>, count: int)
    requires
        0 <= count <= posts.len(),
    ensures
        grouped_by_category(posts.take(count)).len() <= grouped_by_category(posts).len(),
        forall|g: int|
            0 <= g < grouped_by_category(posts.take(count)).len() ==> (#[trigger] grouped_by_category(
                posts,
            )[g]).0 == grouped_by_category(posts.take(count))[g].0,
    decreases posts.len() - count,
{
    if count < posts.len() {
        let shorter = posts.take(count);
        let longer = posts.take(count + 1);
        assert(longer.drop_last() =~= shorter);
        grouped_are_categories(shorter);
        filed_adds(grouped_by_category(shorter), longer.last(), longer.last().metadata.categories);
        categories_keep_their_places(posts, count + 1);
        assert forall|g: int| 0 <= g < grouped_by_category(shorter).len() implies (
        #[trigger] grouped_by_category(posts)[g]).0 == grouped_by_category(shorter)[g].0 by {
            assert(grouped_by_category(longer)[g].0 == grouped_by_category(shorter)[g].0);
        }
    } else {
        assert(posts.take(count) =~= posts);
    }
}

/// Grouping is repeatable: lists of posts that stand for the same give the
/// same categories with the same posts, in the same order.
pub proof fn grouping_is_repeatable(first: Seq<Post>, second: Seq<Post>)
    requires
        post_views(first) == post_views(second),
    ensures
        grouped_by_category(post_views(first)) == grouped_by_category(post_views(second)),
{
}

/// Files `post` under the category `name`: at the end of the group of that
/// name, or as the first post of a new, last group.
pub fn file_under(groups: &mut Vec<(Category, Vec<Post>)>, name: &str, post: &Post)
    ensures
        category_views(final(groups)@) == filed_under(category_views(old(groups)@), name@, post@),
{
    let ghost before = category_views(groups@);
    let wanted = name.to_owned();
    let mut g: usize = 0;
    while g < groups.len() && groups[g].0.name != wanted
        invariant
            g <= groups@.len(),
            groups@ == old(groups)@,
            wanted@ == name@,
            before == category_views(groups@),
            forall|h: int| 0 <= h < g ==> (#[trigger] before[h]).0.name != name@,
        decreases groups@.len() - g,
    {
        g = g + 1;
    }
    proof {
        group_index_found(before, name@, g as int);
    }
    if g < groups.len() {
        groups[g].1.push(post.clone());
        proof {
            assert(post_views(groups@[g as int].1@) =~= before[g as int].1.push(post@));
            assert(category_views(groups@) =~= before.update(
                g as int,
                (before[g as int].0, before[g as int].1.push(post@)),
            ));
        }
    } else {
        let category = Category::named(name);
        let mut members: Vec<Post> = Vec::new();
        members.push(post.clone());
        groups.push((category, members));
        proof {
            assert(post_views(members@) =~= seq![post@]);
            assert(category_views(groups@) =~= before.push(
                (CategoryView { name: name@, path: category_path(name@) }, seq![post@]),
            ));
        }
    }
}

/// The categories that `posts` name, each with its posts: the categories in
/// the order in which the posts first name them, the posts of each in the
/// order of `posts`.
pub fn group_by_category(posts: &Vec<Post>) -> (groups: Vec<(Category, Vec<Post>)>)
    ensures
        category_views(groups@) == grouped_by_category(post_views(posts@)),
{
    let ghost views = post_views(posts@);
    let mut groups: Vec<(Category, Vec<Post>)> = Vec::new();
    let mut i: usize = 0;
    proof {
        assert(views.take(0) =~= Seq::<PostView>::empty());
        assert(category_views(groups@) =~= grouped_by_category(views.take(0)));
    }
    while i < posts.len()
        invariant
            i <= posts@.len(),
            views == post_views(posts@),
            category_views(groups@) == grouped_by_category(views.take(i as int)),
        decreases posts@.len() - i,
    {
        let post = &posts[i];
        let ghost names = post@.metadata.categories;
        let ghost start = category_views(groups@);
        let mut c: usize = 0;
        proof {
            assert(names.take(0) =~= Seq::<Seq<char>>::empty());
        }
        while c < post.metadata.categories.len()
            invariant
                c <= post.metadata.categories@.len(),
                names == post@.metadata.categories,
                names.len() == post.metadata.categories@.len(),
                category_views(groups@) == filed(start, post@, names.take(c as int)),
            decreases post.metadata.categories@.len() - c,
        {
            file_under(&mut groups, post.metadata.categories[c].as_str(), post);
            proof {
                let next = names.take(c + 1);
                assert(next.drop_last() =~= names.take(c as int));
                assert(next.last() == post.metadata.categories@[c as int]@);
            }
            c = c + 1;
        }
        proof {
            assert(names.take(c as int) =~= names);
            let next = views.take(i + 1);
            assert(next.drop_last() =~= views.take(i as int));
            assert(next.last() == post@);
        }
        i = i + 1;
    }
    proof {
        assert(views.take(i as int) =~= views);
    }
    groups
}

} // verus!
