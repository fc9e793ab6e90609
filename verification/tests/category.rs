use sitegen::category::{create_category_list_html, get_category_path, Category};
use sitegen::grouping::{file_under, group_by_category};
use sitegen::date::Date;
use sitegen::metadata::MetaData;
use sitegen::posts::Post;

fn post(title: &str, date: (i32, u32, u32), categories: &[&str]) -> Post {
    Post {
        metadata: MetaData {
            title: title.to_string(),
            date: Date::from_ymd(date.0, date.1, date.2).unwrap(),
            categories: categories.iter().map(|c| c.to_string()).collect(),
            summary: String::new(),
        },
        content: format!("<p>{}</p>", title),
        path: format!("./posts/{}.html", title.to_lowercase()),
        public_link: format!("https://example.org/posts/{}.html", title.to_lowercase()),
    }
}

fn titles(posts: &Vec<Post>) -> Vec<String> {
    posts.iter().map(|p| p.metadata.title.clone()).collect()
}

#[test]
fn category_path_is_lowercase_without_whitespace() {
    assert_eq!(get_category_path("Notes"), "notes.html");
    assert_eq!(get_category_path("Game Dev"), "gamedev.html");
    assert_eq!(get_category_path("  Rust \t Lang\n"), "rustlang.html");
    assert_eq!(get_category_path("ÉTÉ\u{a0}2023"), "été2023.html");
    assert_eq!(get_category_path(""), ".html");
    assert_eq!(get_category_path("   "), ".html");
}

#[test]
fn category_path_agrees_with_std() {
    let samples = ["Notes", "Game Dev", "ΣΑΣ ΟΔΟΣ", "İstanbul", "a\u{2003}b\u{3000}c", "MiXeD 123"];
    for sample in samples {
        let expected: String = sample.chars().filter(|c| !c.is_whitespace()).collect::<String>().to_lowercase() + ".html";
        assert_eq!(get_category_path(sample), expected);
    }
}

#[test]
fn named_category_has_its_path() {
    let category = Category::named("Game Dev");
    assert_eq!(category.name, "Game Dev");
    assert_eq!(category.path, "gamedev.html");
    let copy = category.clone();
    assert_eq!(copy.name, "Game Dev");
    assert_eq!(copy.path, "gamedev.html");
}

#[test]
fn grouping_keeps_first_seen_order_of_categories_and_posts() {
    let posts = vec![
        post("A", (2023, 1, 1), &["Dev", "Notes"]),
        post("B", (2023, 2, 1), &["Life"]),
        post("C", (2022, 1, 1), &["Notes", "Dev"]),
        post("D", (2024, 1, 1), &[]),
    ];
    let groups = group_by_category(&posts);
    let names: Vec<&str> = groups.iter().map(|g| g.0.name.as_str()).collect();
    assert_eq!(names, vec!["Dev", "Notes", "Life"]);
    let paths: Vec<&str> = groups.iter().map(|g| g.0.path.as_str()).collect();
    assert_eq!(paths, vec!["dev.html", "notes.html", "life.html"]);
    assert_eq!(titles(&groups[0].1), vec!["A", "C"]);
    assert_eq!(titles(&groups[1].1), vec!["A", "C"]);
    assert_eq!(titles(&groups[2].1), vec!["B"]);
}

#[test]
fn grouping_is_by_the_exact_name() {
    let posts = vec![post("A", (2023, 1, 1), &["Dev"]), post("B", (2023, 1, 2), &["dev"]), post("C", (2023, 1, 3), &["Dev "])];
    let groups = group_by_category(&posts);
    let names: Vec<&str> = groups.iter().map(|g| g.0.name.as_str()).collect();
    assert_eq!(names, vec!["Dev", "dev", "Dev "]);
    let paths: Vec<&str> = groups.iter().map(|g| g.0.path.as_str()).collect();
    assert_eq!(paths, vec!["dev.html", "dev.html", "dev.html"]);
}

#[test]
fn post_that_names_a_category_twice_stands_there_twice() {
    let posts = vec![post("A", (2023, 1, 1), &["Dev", "Dev"])];
    let groups = group_by_category(&posts);
    assert_eq!(groups.len(), 1);
    assert_eq!(titles(&groups[0].1), vec!["A", "A"]);
}

#[test]
fn grouping_twice_gives_the_same() {
    let posts = vec![
        post("A", (2023, 1, 1), &["Dev", "Notes"]),
        post("B", (2023, 2, 1), &["Notes"]),
        post("C", (2022, 1, 1), &["X", "Dev"]),
    ];
    let first = group_by_category(&posts);
    let second = group_by_category(&posts);
    assert_eq!(first.len(), second.len());
    for (a, b) in first.iter().zip(second.iter()) {
        assert_eq!(a.0.name, b.0.name);
        assert_eq!(a.0.path, b.0.path);
        assert_eq!(titles(&a.1), titles(&b.1));
    }
}

#[test]
fn grouping_no_posts_gives_no_categories() {
    assert!(group_by_category(&Vec::new()).is_empty());
}

#[test]
fn file_under_appends_or_opens_a_group() {
    let mut groups = Vec::new();
    let a = post("A", (2023, 1, 1), &[]);
    let b = post("B", (2023, 1, 2), &[]);
    file_under(&mut groups, "Dev", &a);
    file_under(&mut groups, "Notes", &a);
    file_under(&mut groups, "Dev", &b);
    assert_eq!(groups.len(), 2);
    assert_eq!(groups[0].0.name, "Dev");
    assert_eq!(titles(&groups[0].1), vec!["A", "B"]);
    assert_eq!(groups[1].0.name, "Notes");
    assert_eq!(titles(&groups[1].1), vec!["A"]);
}

#[test]
fn category_list_is_newest_first() {
    let category = Category::named("Dev");
    let posts = vec![post("Old", (2022, 3, 4), &["Dev"]), post("New", (2023, 5, 1), &["Dev"]), post("Mid", (2022, 12, 25), &["Dev"])];
    let html = create_category_list_html(&category, &posts);
    assert_eq!(
        html,
        "<div id=\"category-list\">\n<h2>Dev</h2>\n<ul>\n\
         <li><a href=\"./posts/new.html\">New - [1 May 2023]</a></li>\n\
         <li><a href=\"./posts/mid.html\">Mid - [25 December 2022]</a></li>\n\
         <li><a href=\"./posts/old.html\">Old - [4 March 2022]</a></li>\n\
         </ul>\n</div>\n"
    );
}

#[test]
fn category_list_without_posts() {
    let html = create_category_list_html(&Category::named("Empty"), &Vec::new());
    assert_eq!(html, "<div id=\"category-list\">\n<h2>Empty</h2>\n<ul>\n</ul>\n</div>\n");
}
