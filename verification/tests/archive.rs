use sitegen::archive::{group_by_year, group_by_year_as_html};
use sitegen::date::Date;
use sitegen::metadata::MetaData;
use sitegen::posts::Post;

fn post(title: &str, date: (i32, u32, u32)) -> Post {
    Post {
        metadata: MetaData {
            title: title.to_string(),
            date: Date::from_ymd(date.0, date.1, date.2).unwrap(),
            categories: Vec::new(),
            summary: String::new(),
        },
        content: String::new(),
        path: format!("./posts/{}.html", title),
        public_link: String::new(),
    }
}

#[test]
fn years_fall_and_posts_fall_within_a_year() {
    let posts = vec![
        post("a", (2022, 3, 1)),
        post("b", (2023, 1, 1)),
        post("c", (2021, 12, 31)),
        post("d", (2022, 7, 1)),
        post("e", (2023, 5, 1)),
        post("f", (2022, 3, 1)),
    ];
    let groups = group_by_year(&posts);
    let years: Vec<i32> = groups.iter().map(|g| g.year).collect();
    assert_eq!(years, vec![2023, 2022, 2021]);
    assert_eq!(groups[0].posts, vec![4, 1]);
    assert_eq!(groups[1].posts, vec![3, 0, 5]);
    assert_eq!(groups[2].posts, vec![2]);
}

#[test]
fn every_post_stands_in_the_group_of_its_year_once() {
    let posts: Vec<Post> = (0..40u32).map(|i| post(&format!("post{}", i), (2000 + ((i * 7) % 5) as i32, 1 + (i * 5) % 12, 1 + (i * 11) % 28))).collect();
    let groups = group_by_year(&posts);
    let mut seen = vec![0usize; posts.len()];
    for group in &groups {
        assert!(!group.posts.is_empty());
        for index in &group.posts {
            assert_eq!(posts[*index].metadata.date.year(), group.year);
            seen[*index] += 1;
        }
    }
    assert!(seen.iter().all(|n| *n == 1));
    for pair in groups.windows(2) {
        assert!(pair[0].year > pair[1].year);
    }
}

#[test]
fn no_posts_no_groups() {
    assert!(group_by_year(&Vec::new()).is_empty());
    assert_eq!(group_by_year_as_html(&Vec::new()), "");
}

#[test]
fn archive_has_a_block_for_each_year() {
    let posts = vec![post("a", (2022, 3, 1)), post("b", (2023, 5, 1)), post("c", (2022, 7, 1))];
    assert_eq!(
        group_by_year_as_html(&posts),
        "<h2>2023</h2>\n<ul>\n<li><a href=\"./posts/b.html\">b</a></li>\n</ul>\n\
         <h2>2022</h2>\n<ul>\n<li><a href=\"./posts/c.html\">c</a></li>\n<li><a href=\"./posts/a.html\">a</a></li>\n</ul>\n"
    );
}

#[test]
fn archive_writes_years_before_the_common_era() {
    let posts = vec![post("a", (-44, 3, 15)), post("b", (0, 1, 1))];
    assert_eq!(
        group_by_year_as_html(&posts),
        "<h2>0</h2>\n<ul>\n<li><a href=\"./posts/b.html\">b</a></li>\n</ul>\n\
         <h2>-44</h2>\n<ul>\n<li><a href=\"./posts/a.html\">a</a></li>\n</ul>\n"
    );
}
