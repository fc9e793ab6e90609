use sitegen::date::Date;
use sitegen::metadata::MetaData;
use sitegen::order::recency_order_of;
use sitegen::posts::{create_listing_entry, create_recent_posts_html, push_listing_item, Post};

fn post(title: &str, date: (i32, u32, u32)) -> Post {
    Post {
        metadata: MetaData {
            title: title.to_string(),
            date: Date::from_ymd(date.0, date.1, date.2).unwrap(),
            categories: Vec::new(),
            summary: String::new(),
        },
        content: String::new(),
        path: format!("./posts/{}.html", title),
        public_link: format!("https://example.org/posts/{}.html", title),
    }
}

#[test]
fn recency_order_is_latest_first() {
    let posts = vec![post("a", (2021, 1, 1)), post("b", (2023, 1, 1)), post("c", (2022, 6, 1)), post("d", (2022, 6, 2))];
    assert_eq!(recency_order_of(&posts), vec![1, 3, 2, 0]);
}

#[test]
fn recency_order_keeps_posts_of_one_day_as_met() {
    let posts = vec![
        post("a", (2022, 1, 1)),
        post("b", (2023, 1, 1)),
        post("c", (2022, 1, 1)),
        post("d", (2023, 1, 1)),
        post("e", (2022, 1, 1)),
    ];
    assert_eq!(recency_order_of(&posts), vec![1, 3, 0, 2, 4]);
}

#[test]
fn recency_order_agrees_with_a_stable_sort() {
    let days = [5u32, 3, 5, 1, 3, 3, 9, 1, 5, 9, 2, 2, 7];
    let posts: Vec<Post> = days.iter().enumerate().map(|(i, d)| post(&format!("post{}", i), (2020, 1, *d))).collect();
    let mut expected: Vec<usize> = (0..posts.len()).collect();
    expected.sort_by(|a, b| days[*b].cmp(&days[*a]));
    assert_eq!(recency_order_of(&posts), expected);
}

#[test]
fn recency_order_of_no_posts() {
    assert_eq!(recency_order_of(&Vec::new()), Vec::<usize>::new());
}

#[test]
fn listing_entry_links_title_and_date() {
    assert_eq!(
        create_listing_entry("./posts/hello.html", "Hello", "1 May 2023"),
        "<li><a href=\"./posts/hello.html\">Hello - [1 May 2023]</a></li>\n"
    );
}

#[test]
fn listing_item_is_appended() {
    let mut out = String::from("<ul>");
    push_listing_item(&mut out, &post("x", (2023, 5, 1)));
    assert_eq!(out, "<ul><li><a href=\"./posts/x.html\">x - [1 May 2023]</a></li>\n");
}

#[test]
fn recent_posts_lists_the_latest() {
    let posts = vec![post("old", (2021, 1, 1)), post("new", (2023, 5, 1)), post("mid", (2022, 6, 15))];
    assert_eq!(
        create_recent_posts_html(&posts, 2),
        "<div id=\"recent-posts\">\n<h2>Recent Posts</h2>\n<ul>\
         <li><a href=\"./posts/new.html\">new - [1 May 2023]</a></li>\n\
         <li><a href=\"./posts/mid.html\">mid - [15 June 2022]</a></li>\n\
         <a href=\"./all.html\">» all posts</a></ul>\n</div>\n"
    );
}

#[test]
fn recent_posts_never_lists_more_than_there_are() {
    let posts = vec![post("a", (2021, 1, 1)), post("b", (2023, 5, 1))];
    let html = create_recent_posts_html(&posts, 10);
    assert_eq!(html.matches("<li>").count(), 2);
    let html = create_recent_posts_html(&posts, 1);
    assert_eq!(html.matches("<li>").count(), 1);
    assert!(html.contains("./posts/b.html"));
    let html = create_recent_posts_html(&posts, 0);
    assert_eq!(html, "<div id=\"recent-posts\">\n<h2>Recent Posts</h2>\n<ul><a href=\"./all.html\">» all posts</a></ul>\n</div>\n");
    let html = create_recent_posts_html(&Vec::new(), 10);
    assert_eq!(html.matches("<li>").count(), 0);
}

#[test]
fn recent_posts_break_ties_by_the_order_met() {
    let posts = vec![post("first", (2023, 5, 1)), post("second", (2023, 5, 1)), post("third", (2023, 5, 1))];
    let html = create_recent_posts_html(&posts, 2);
    let first = html.find("first").unwrap();
    let second = html.find("second").unwrap();
    assert!(first < second);
    assert!(!html.contains("third"));
}

#[test]
fn post_clone_keeps_every_field() {
    let first = post("x", (2023, 5, 1));
    let copy = first.clone();
    assert_eq!(copy.metadata.title, first.metadata.title);
    assert_eq!(copy.metadata.date, first.metadata.date);
    assert_eq!(copy.content, first.content);
    assert_eq!(copy.path, first.path);
    assert_eq!(copy.public_link, first.public_link);
}
