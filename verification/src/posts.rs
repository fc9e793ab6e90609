//! Posts, and the listing of the most recent ones.

use crate::date::{formatted_date, long_pattern};
use crate::metadata::{MetaData, MetaDataView};
use crate::order::{dates_of, indices, most_recent, recency_order_of};
use vstd::prelude::*;
use vstd::string::StringExecFns;

verus! {

/// A post of the site, composed.
#[derive(Debug)]
pub struct Post {
    /// What the post says of itself.
    pub metadata: MetaData,
    /// The whole page of the post, as HTML.
    pub content: String,
    /// The link to the page from the site root.
    pub path: String,
    /// The address of the page on the published site.
    pub public_link: String,
}

/// What a `Post` stands for.
pub struct PostView {
    pub metadata: MetaDataView,
    pub content: Seq<char>,
    pub path: Seq<char>,
    pub public_link: Seq<char>,
}

impl View for Post {
    type V = PostView;

    open spec fn view(&self) -> PostView {
        PostView {
            metadata: self.metadata@,
            content: self.content@,
            path: self.path@,
            public_link: self.public_link@,
        }
    }
}

/// What each of `posts` stands for, in order.
pub open spec fn post_views(posts: Seq<Post>) -> Seq<PostView> {
    posts.map_values(|p: Post| p@)
}

impl Clone for Post {
    fn clone(&self) -> (copy: Post)
        ensures
            copy@ == self@,
    {
        Post {
            metadata: self.metadata.clone(),
            content: self.content.clone(),
            path: self.path.clone(),
            public_link: self.public_link.clone(),
        }
    }
}

/// An entry of a listing: a link to `path` that shows `title` and, in square
/// brackets, `date`.
pub open spec fn listing_entry(path: Seq<char>, title: Seq<char>, date: Seq<char>) -> Seq<char> {
    "<li><a href=\""@ + path + "\">"@ + title + " - ["@ + date + "]</a></li>\n"@
}

/// The entry of a post in a listing: a link to the post that shows its
/// title and its date, written as day, month name and year.
pub open spec fn listing_item(post: PostView) -> Seq<char> {
    listing_entry(
        post.path,
        post.metadata.title,
        formatted_date(post.metadata.date, long_pattern()),
    )
}

/// The entries of the posts at the indices `order`, in that order.
pub open spec fn listing(posts: Seq<PostView>, order: Seq<int>) -> Seq<char>
    decreases order.len(),
{
    if order.len() == 0 {
        Seq::empty()
    } else {
        listing(posts, order.drop_last()) + listing_item(posts[order.last()])
    }
}

/// The block of the home page that lists the `num_posts` most recent posts
/// and ends in a link to the archive.
pub open spec fn recent_posts_html(posts: Seq<PostView>, num_posts: int) -> Seq<char> {
    "<div id=\"recent-posts\">\n<h2>Recent Posts</h2>\n<ul>"@ + listing(
        posts,
        most_recent(dates_of(posts), num_posts),
    ) + "<a href=\"./all.html\">\u{bb} all posts</a>"@ + "</ul>\n</div>\n"@
}

/// An entry of a listing: a link to `path` that shows `title` and, in square
/// brackets, `date`.
pub fn create_listing_entry(path: &str, title: &str, date: &str) -> (entry: String)
    ensures
        entry@ == listing_entry(path@, title@, date@),
{
    let mut entry = "<li><a href=\"".to_owned();
    entry.append(path);
    entry.append("\">");
    entry.append(title);
    entry.append(" - [");
    entry.append(date);
    entry.append("]</a></li>\n");
    entry
}

/// Appends the listing entry of `post` to `out`.
pub fn push_listing_item(out: &mut String, post: &Post)
    ensures
        final(out)@ == old(out)@ + listing_item(post@),
{
    let date = post.metadata.date.long_text();
    let entry = create_listing_entry(
        post.path.as_str(),
        post.metadata.title.as_str(),
        date.as_str(),
    );
    out.append(entry.as_str());
}

/// Appends the listing entries of the first `count` posts of `order` to
/// `out`.
pub(crate) fn push_listing(
    out: &mut String,
    posts: &Vec<Post>,
    order: &Vec<usize>,
    count: usize,
)
    requires
        count <= order@.len(),
        forall|i: int| 0 <= i < order@.len() ==> #[trigger] order@[i] < posts@.len(),
    ensures
        final(out)@ == old(out)@ + listing(post_views(posts@), indices(order@).take(count as int)),
{
    let ghost views = post_views(posts@);
    let ghost listed = indices(order@).take(count as int);
    let mut i: usize = 0;
    assert(listed.take(0) =~= Seq::<int>::empty());
    assert(out@ =~= old(out)@ + listing(views, listed.take(0)));
    while i < count
        invariant
            i <= count <= order@.len(),
            views == post_views(posts@),
            listed == indices(order@).take(count as int),
            forall|j: int| 0 <= j < order@.len() ==> #[trigger] order@[j] < posts@.len(),
            out@ == old(out)@ + listing(views, listed.take(i as int)),
        decreases count - i,
    {
        let ghost before = out@;
        push_listing_item(out, &posts[order[i]]);
        proof {
            let next = listed.take(i + 1);
            assert(next.drop_last() =~= listed.take(i as int));
            assert(next.last() == order@[i as int] as int);
            assert(views[order@[i as int] as int] == posts@[order@[i as int] as int]@);
            assert(out@ =~= old(out)@ + listing(views, next));
        }
        i = i + 1;
    }
    assert(listed.take(count as int) =~= listed);
}

/// The block of the home page that lists the `num_posts` most recent posts:
/// the latest first, posts of one day in the order of `posts`, and all posts
/// where there are no more than `num_posts`.
pub fn create_recent_posts_html(posts: &Vec<Post>, num_posts: usize) -> (html: String)
    ensures
        html@ == recent_posts_html(post_views(posts@), num_posts as int),
{
    let mut html = "<div id=\"recent-posts\">\n<h2>Recent Posts</h2>\n<ul>".to_owned();
    let order = recency_order_of(posts);
    let count = if num_posts < order.len() {
        num_posts
    } else {
        order.len()
    };
    push_listing(&mut html, posts, &order, count);
    html.append("<a href=\"./all.html\">\u{bb} all posts</a>");
    html.append("</ul>\n</div>\n");
    proof {
        assert(dates_of(post_views(posts@)).len() == posts@.len());
    }
    html
}

} // verus!
