//! Categories: the names that posts file themselves under.

use crate::order::{dates_of, indices, recency_order, recency_order_of};
use crate::posts::{listing, post_views, push_listing, Post, PostView};
use crate::text::chars_of;
use vstd::prelude::*;
use vstd::string::StringExecFns;

verus! {

/// A category of posts.
#[derive(Debug)]
pub struct Category {
    /// The name as the posts write it.
    pub name: String,
    /// The file name of the category's page.
    pub path: String,
}

/// What a `Category` stands for.
pub struct CategoryView {
    pub name: Seq<char>,
    pub path: Seq<char>,
}

impl View for Category {
    type V = CategoryView;

    open spec fn view(&self) -> CategoryView {
        CategoryView { name: self.name@, path: self.path@ }
    }
}

/// Whether `c` has the Unicode property `White_Space`, as `char::is_whitespace`
/// tells it.
pub uninterp spec fn is_whitespace_char(c: char) -> bool;

/// `char::is_whitespace` depends on the character alone.
pub assume_specification[ char::is_whitespace ](c: char) -> (white: bool)
    ensures
        white == is_whitespace_char(c),
;

/// The lowercase equivalent of `text`, as `str::to_lowercase` gives it.
pub uninterp spec fn lowercase_of(text: Seq<char>) -> Seq<char>;

/// `str::to_lowercase` depends on the text alone.
pub assume_specification[ str::to_lowercase ](text: &str) -> (lower: String)
    ensures
        lower@ == lowercase_of(text@),
;

/// `text` without its whitespace characters.
pub open spec fn without_whitespace(text: Seq<char>) -> Seq<char> {
    text.filter(|c: char| !is_whitespace_char(c))
}

/// The file name of the page of the category `name`: the name without
/// whitespace, in lowercase, then `.html`.
pub open spec fn category_path(name: Seq<char>) -> Seq<char> {
    lowercase_of(without_whitespace(name)) + ".html"@
}

/// The file name of the page of the category `category`.
pub fn get_category_path(category: &str) -> (path: String)
    ensures
        path@ == category_path(category@),
{
    let chars = chars_of(category);
    let mut kept = String::new();
    let mut i: usize = 0;
    let ghost keep = |c: char| !is_whitespace_char(c);
    proof {
        reveal(Seq::filter);
        assert(chars@.take(0).filter(keep) =~= Seq::<char>::empty());
    }
    while i < chars.len()
        invariant
            i <= chars.len(),
            keep == |c: char| !is_whitespace_char(c),
            kept@ == chars@.take(i as int).filter(keep),
        decreases chars.len() - i,
    {
        proof {
            assert(chars@.take(i + 1) =~= chars@.take(i as int).push(chars@[i as int]));
            chars@.take(i as int).lemma_filter_push(chars@[i as int], keep);
        }
        if !chars[i].is_whitespace() {
            kept.push(chars[i]);
        }
        i = i + 1;
    }
    assert(chars@.take(i as int) =~= chars@);
    let mut path = kept.as_str().to_lowercase();
    path.append(".html");
    path
}

/// The list of the posts of a category under its name: the latest first,
/// posts of one day in the order given.
pub open spec fn category_list_html(category: CategoryView, posts: Seq<PostView>) -> Seq<char> {
    "<div id=\"category-list\">\n<h2>"@ + category.name + "</h2>\n<ul>\n"@ + listing(
        posts,
        recency_order(dates_of(posts)),
    ) + "</ul>\n</div>\n"@
}

/// The list of the posts of `category`, which `posts` holds, under its name.
pub fn create_category_list_html(category: &Category, posts: &Vec<Post>) -> (html: String)
    ensures
        html@ == category_list_html(category@, post_views(posts@)),
{
    let mut html = "<div id=\"category-list\">\n<h2>".to_owned();
    html.append(category.name.as_str());
    html.append("</h2>\n<ul>\n");
    let order = recency_order_of(posts);
    push_listing(&mut html, posts, &order, order.len());
    html.append("</ul>\n</div>\n");
    proof {
        assert(indices(order@).take(order@.len() as int) =~= indices(order@));
    }
    html
}

impl Category {
    /// The category named `name`, with the file name of its page.
    pub fn named(name: &str) -> (category: Category)
        ensures
            category@ == (CategoryView { name: name@, path: category_path(name@) }),
    {
        Category { name: name.to_owned(), path: get_category_path(name) }
    }
}

impl Clone for Category {
    fn clone(&self) -> (copy: Category)
        ensures
            copy@ == self@,
    {
        Category { name: self.name.clone(), path: self.path.clone() }
    }
}

} // verus!
