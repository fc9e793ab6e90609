//! The RSS feed of a site.

use crate::config::{SiteConfig, SiteConfigView};
use crate::date::{formatted_date, rfc822_pattern};
use crate::posts::{post_views, Post, PostView};
use vstd::prelude::*;

verus! {

/// An item of a feed.
#[derive(Debug)]
pub struct FeedItem {
    /// The title of the item.
    pub title: String,
    /// The address of the page that the item is about.
    pub link: String,
    /// A short description of the item.
    pub description: String,
    /// The date of publication, written as RFC 822 has it.
    pub pub_date: String,
    /// A text that identifies the item among all items.
    pub guid: String,
}

/// What a `FeedItem` stands for.
pub struct FeedItemView {
    pub title: Seq<char>,
    pub link: Seq<char>,
    pub description: Seq<char>,
    pub pub_date: Seq<char>,
    pub guid: Seq<char>,
}

impl View for FeedItem {
    type V = FeedItemView;

    open spec fn view(&self) -> FeedItemView {
        FeedItemView {
            title: self.title@,
            link: self.link@,
            description: self.description@,
            pub_date: self.pub_date@,
            guid: self.guid@,
        }
    }
}

/// What each of `items` stands for, in order.
pub open spec fn feed_item_views(items: Seq<FeedItem>) -> Seq<FeedItemView> {
    items.map_values(|i: FeedItem| i@)
}

/// The XML that the `rss` crate writes for a channel with the given title,
/// link and description and the given items, each of which has a title, a
/// link, a description, a date of publication and a guid, and nothing else.
pub uninterp spec fn channel_xml(
    title: Seq<char>,
    link: Seq<char>,
    description: Seq<char>,
    items: Seq<FeedItemView>,
) -> Seq<char>;

/// The feed item of a post that was published under the date text
/// `pub_date`: title and summary of the post, and its public address as
/// link and as guid.
pub open spec fn feed_item_of(post: PostView, pub_date: Seq<char>) -> FeedItemView {
    FeedItemView {
        title: post.metadata.title,
        link: post.public_link,
        description: post.metadata.summary,
        pub_date,
        guid: post.public_link,
    }
}

/// The feed items of `posts`, in order, each under the date of its post.
pub open spec fn feed_items_of(posts: Seq<PostView>) -> Seq<FeedItemView> {
    posts.map_values(
        |p: PostView| feed_item_of(p, formatted_date(p.metadata.date, rfc822_pattern())),
    )
}

/// The feed of a site: a channel with title, address and description of the
/// site, and an item for each post, in the order of `posts`.
pub open spec fn feed_xml(posts: Seq<PostView>, config: SiteConfigView) -> Seq<char> {
    channel_xml(config.title, config.url, config.description, feed_items_of(posts))
}

/// Builds an `rss::Item` for each item and an `rss::Channel` around them,
/// with the builders of the `rss` crate, and has the channel written by its
/// `to_string`. The contract claims that the XML depends on the texts handed
/// in alone.
#[verifier::external_body]
fn write_channel(title: &str, link: &str, description: &str, items: &Vec<FeedItem>) -> (xml: String)
    ensures
        xml@ == channel_xml(title@, link@, description@, feed_item_views(items@)),
{
    let items: Vec<rss::Item> = items.iter().map(
        |item| rss::ItemBuilder::default()
            .title(Some(item.title.clone()))
            .link(Some(item.link.clone()))
            .description(Some(item.description.clone()))
            .pub_date(Some(item.pub_date.clone()))
            .guid(Some(rss::Guid { value: item.guid.clone(), ..Default::default() }))
            .build(),
    ).collect();
    rss::ChannelBuilder::default().title(title).link(link).description(description).items(
        items,
    ).build().to_string()
}

/// The feed item of `post`, published under the date text `pub_date`.
pub fn create_feed_item(post: &Post, pub_date: &str) -> (item: FeedItem)
    ensures
        item@ == feed_item_of(post@, pub_date@),
{
    FeedItem {
        title: post.metadata.title.clone(),
        link: post.public_link.clone(),
        description: post.metadata.summary.clone(),
        pub_date: pub_date.to_owned(),
        guid: post.public_link.clone(),
    }
}

/// The RSS feed of the site: the channel described by `config`, with an item
/// for each of `posts`, in their order. An item has the title of its post,
/// its public address as link and as guid, its summary as description, and
/// its date as date of publication.
pub fn build_rss_feed(posts: &Vec<Post>, config: &SiteConfig) -> (xml: String)
    ensures
        xml@ == feed_xml(post_views(posts@), config@),
{
    let mut items: Vec<FeedItem> = Vec::new();
    let mut i: usize = 0;
    while i < posts.len()
        invariant
            i <= posts@.len(),
            items@.len() == i,
            forall|j: int|
                0 <= j < i ==> (#[trigger] items@[j])@ == feed_item_of(
                    posts@[j]@,
                    formatted_date(posts@[j]@.metadata.date, rfc822_pattern()),
                ),
        decreases posts@.len() - i,
    {
        let pub_date = posts[i].metadata.date.rfc822_text();
        items.push(create_feed_item(&posts[i], pub_date.as_str()));
        i = i + 1;
    }
    proof {
        assert(feed_item_views(items@) =~= feed_items_of(post_views(posts@)));
    }
    write_channel(
        config.title.as_str(),
        config.url.as_str(),
        config.description.as_str(),
        &items,
    )
}

} // verus!
