use sitegen::config::SiteConfig;
use sitegen::error::{BuildError, SiteFile};
use sitegen::site::{
    build_all_posts_page, build_categories_index_page, build_category_pages, build_content_folder,
    build_main_page, build_post, build_site, create_categories_index_html,
};
use sitegen::sources::{OutputFile, SiteInput, SourceFile};

fn source(folders: &[&str], name: &str, text: &str) -> SourceFile {
    SourceFile {
        folders: folders.iter().map(|f| f.to_string()).collect(),
        name: name.to_string(),
        text: text.to_string(),
    }
}

fn site(posts: Vec<SourceFile>) -> SiteInput {
    SiteInput {
        config: Some("title: My Site\nurl: https://example.org\ndescription: Notes and thoughts\n".to_string()),
        header: Some("[Home](./index.html)".to_string()),
        footer: Some("[Feed](./feed.xml)".to_string()),
        index: Some("<p>Welcome</p>".to_string()),
        posts,
    }
}

fn config() -> SiteConfig {
    SiteConfig {
        title: "My Site".to_string(),
        url: "https://example.org".to_string(),
        description: "Notes and thoughts".to_string(),
    }
}

fn file<'a>(files: &'a Vec<OutputFile>, path: &str) -> &'a OutputFile {
    match files.iter().find(|f| f.path == path) {
        Some(f) => f,
        None => panic!("no file {}", path),
    }
}

fn hello() -> SourceFile {
    source(
        &["posts"],
        "hello.md",
        "---\ntitle: Hello\ndate: 2023-05-01\ncategories:\n  - Notes\nsummary: First post\n---\nSome *text*.\n",
    )
}

#[test]
fn one_post_site() {
    let files = build_site(&site(vec![hello()])).unwrap();
    let paths: Vec<&str> = files.iter().map(|f| f.path.as_str()).collect();
    assert_eq!(paths, vec!["posts/hello.html", "index.html", "all.html", "categories.html", "notes.html", "feed.xml"]);

    let post = file(&files, "posts/hello.html");
    assert!(post.contents.contains("<h1>Hello</h1>"));
    assert!(post.contents.contains("<p>Some <em>text</em>.</p>"));
    assert!(post.contents.contains("<title>Hello</title>"));
    assert!(post.contents.contains("href=\"../style/style.css\""));
    assert!(post.contents.contains("<a href=\"../index.html\">Home</a>"));
    assert!(post.contents.contains("<a href=\"../feed.xml\">Feed</a>"));

    let categories = file(&files, "categories.html");
    assert!(categories.contents.contains("<a href=\"./notes.html\">Notes</a>"));
    assert!(categories.contents.contains("<title>My Site</title>"));

    let feed = file(&files, "feed.xml");
    assert_eq!(feed.contents.matches("<item>").count(), 1);
    assert!(feed.contents.contains("<link>https://example.org/posts/hello.html</link>"));
    assert!(feed.contents.contains("<pubDate>Mon, 01 May 2023 00:00:00 +0000</pubDate>"));

    let all = file(&files, "all.html");
    assert!(all.contents.contains("<h2>2023</h2>\n<ul>\n<li><a href=\"./posts/hello.html\">Hello</a></li>\n</ul>\n"));

    let index = file(&files, "index.html");
    assert!(index.contents.contains("<p>Welcome</p>\n<div id=\"recent-posts\">"));
    assert!(index.contents.contains("<li><a href=\"./posts/hello.html\">Hello - [1 May 2023]</a></li>"));
    assert!(index.contents.contains("href=\"style/style.css\""));
    assert!(index.contents.contains("<a href=\"./index.html\">Home</a>"));

    let notes = file(&files, "notes.html");
    assert!(notes.contents.contains("<h2>Notes</h2>"));
    assert!(notes.contents.contains("<li><a href=\"./posts/hello.html\">Hello - [1 May 2023]</a></li>"));
}

#[test]
fn two_posts_share_a_category() {
    let posts = vec![
        source(&["posts"], "older.md", "---\ntitle: Older\ndate: 2022-01-15\ncategories: [Dev]\n---\nold\n"),
        source(&["posts"], "newer.md", "---\ntitle: Newer\ndate: 2023-03-20\ncategories: [Dev]\n---\nnew\n"),
    ];
    let files = build_site(&site(posts)).unwrap();
    let dev = file(&files, "dev.html");
    assert_eq!(dev.contents.matches("<li>").count(), 2);
    let newer = dev.contents.find("Newer - [20 March 2023]").unwrap();
    let older = dev.contents.find("Older - [15 January 2022]").unwrap();
    assert!(newer < older);
    assert_eq!(files.iter().filter(|f| f.path == "dev.html").count(), 1);
}

#[test]
fn missing_header_builds_nothing() {
    let mut input = site(vec![hello()]);
    input.header = None;
    assert_eq!(build_site(&input).err(), Some(BuildError::MissingFile(SiteFile::Header)));
    let mut input = site(Vec::new());
    input.header = None;
    assert_eq!(build_site(&input).err(), Some(BuildError::MissingFile(SiteFile::Header)));
}

#[test]
fn missing_required_files_are_named() {
    let mut input = site(vec![hello()]);
    input.config = None;
    assert_eq!(build_site(&input).err(), Some(BuildError::MissingFile(SiteFile::Config)));
    let mut input = site(vec![hello()]);
    input.footer = None;
    assert_eq!(build_site(&input).err(), Some(BuildError::MissingFile(SiteFile::Footer)));
    let mut input = site(vec![hello()]);
    input.index = None;
    assert_eq!(build_site(&input).err(), Some(BuildError::MissingFile(SiteFile::Index)));
    let mut input = site(vec![hello()]);
    input.config = None;
    input.header = None;
    assert_eq!(build_site(&input).err(), Some(BuildError::MissingFile(SiteFile::Config)));
}

#[test]
fn one_bad_post_fails_the_build() {
    let posts = vec![hello(), source(&["posts"], "bad.md", "---\ndate: not a date\n---\nbody")];
    assert_eq!(build_site(&site(posts)).err(), Some(BuildError::MalformedDate));
    let posts = vec![source(&["posts"], "bad.md", "---\ntitle: \"unclosed\n---\nbody"), hello()];
    assert_eq!(build_site(&site(posts)).err(), Some(BuildError::MalformedFrontMatter));
}

#[test]
fn first_failing_post_decides() {
    let posts = vec![
        source(&["posts"], "a.md", "---\ntitle: 1\n---\nbody"),
        source(&["posts"], "b.md", "---\ndate: nope\n---\nbody"),
    ];
    assert_eq!(build_site(&site(posts)).err(), Some(BuildError::MalformedFrontMatter));
}

#[test]
fn site_without_posts() {
    let files = build_site(&site(Vec::new())).unwrap();
    let paths: Vec<&str> = files.iter().map(|f| f.path.as_str()).collect();
    assert_eq!(paths, vec!["index.html", "all.html", "categories.html", "feed.xml"]);
    assert!(file(&files, "categories.html").contents.contains("<h2>Categories</h2>\n<ul>\n</ul>\n"));
}

#[test]
fn post_without_front_matter_is_built_with_defaults() {
    let files = build_site(&site(vec![source(&["posts"], "plain.md", "Just text.\n")])).unwrap();
    let post = file(&files, "posts/plain.html");
    assert!(post.contents.contains("<h1></h1>"));
    assert!(post.contents.contains("<p>Just text.</p>"));
    assert!(file(&files, "all.html").contents.contains("<h2>1970</h2>"));
    assert!(file(&files, "feed.xml").contents.contains("<pubDate>Thu, 01 Jan 1970 00:00:00 +0000</pubDate>"));
}

#[test]
fn nested_post_mirrors_its_folders() {
    let input = site(Vec::new());
    let nested = source(&["posts", "dev"], "deep.md", "---\ntitle: Deep\n---\nbody\n");
    let (post, page) = build_post(&nested, &input, &config()).unwrap();
    assert_eq!(page.path, "posts/dev/deep.html");
    assert_eq!(post.path, "./posts/dev/deep.html");
    assert_eq!(post.public_link, "https://example.org/posts/dev/deep.html");
    assert_eq!(post.content, page.contents);
    assert!(post.content.contains("<a href=\"../../index.html\">Home</a>"));
    assert!(post.content.contains("href=\"../style/style.css\""));
}

#[test]
fn post_at_the_root_links_from_the_root() {
    let input = site(Vec::new());
    let (post, page) = build_post(&source(&[], "about.txt", "About.\n"), &input, &config()).unwrap();
    assert_eq!(page.path, "about.html");
    assert_eq!(post.path, "./about.html");
    assert_eq!(post.public_link, "https://example.org/about.html");
    assert!(post.content.contains("<a href=\"./index.html\">Home</a>"));
    assert!(post.content.contains("href=\"style/style.css\""));
}

#[test]
fn whole_page_of_a_post() {
    let input = site(Vec::new());
    let (post, _) = build_post(&hello(), &input, &config()).unwrap();
    assert_eq!(
        post.content,
        "\n<head>\n<title>Hello</title>\n<meta charset=\"UTF-8\">\n<meta name=\"viewport\" content=\"width=device-width, initial-scale=1.0\">\n<link rel=\"stylesheet\" href=\"../style/style.css\">\n</head>\n\
         \n<body>\n<div id=\"container\"><header>\n<p><a href=\"../index.html\">Home</a></p>\n</header>\n\
         <h1>Hello</h1>\n<p>Some <em>text</em>.</p>\n\
         <footer>\n<p><a href=\"../feed.xml\">Feed</a></p>\n</footer>\n</div></body>"
    );
    assert_eq!(post.metadata.title, "Hello");
    assert_eq!(post.metadata.summary, "First post");
}

#[test]
fn source_without_a_file_name_is_an_error() {
    let input = site(Vec::new());
    assert_eq!(build_post(&source(&["posts"], "..", "text"), &input, &config()).err(), Some(BuildError::UnnamedSource));
    assert_eq!(build_post(&source(&["posts"], "", "text"), &input, &config()).err(), Some(BuildError::UnnamedSource));
}

#[test]
fn source_nested_too_deep_is_an_error() {
    let input = site(Vec::new());
    let folders: Vec<&str> = (0..128).map(|_| "d").collect();
    assert_eq!(build_post(&source(&folders, "a.md", "text"), &input, &config()).err(), Some(BuildError::NestedTooDeep));
    let folders: Vec<&str> = (0..127).map(|_| "d").collect();
    let (post, _) = build_post(&source(&folders, "a.md", "text"), &input, &config()).unwrap();
    assert!(post.content.contains(&format!("<a href=\"{}index.html\">Home</a>", "../".repeat(127))));
}

#[test]
fn errors_of_a_post_come_in_order() {
    let mut input = site(Vec::new());
    input.header = None;
    let folders: Vec<&str> = (0..128).map(|_| "d").collect();
    assert_eq!(build_post(&source(&folders, "..", "---\ndate: x\n---\n"), &input, &config()).err(), Some(BuildError::MalformedDate));
    assert_eq!(build_post(&source(&folders, "..", "text"), &input, &config()).err(), Some(BuildError::NestedTooDeep));
    assert_eq!(build_post(&source(&["posts"], "..", "text"), &input, &config()).err(), Some(BuildError::MissingFile(SiteFile::Header)));
}

#[test]
fn content_folder_holds_posts_categories_and_pages() {
    let posts = vec![
        hello(),
        source(&["posts"], "second.md", "---\ntitle: Second\ndate: 2023-06-01\ncategories: [Dev, Notes]\n---\nmore\n"),
    ];
    let content = build_content_folder(&site(posts), &config()).unwrap();
    let titles: Vec<&str> = content.posts.iter().map(|p| p.metadata.title.as_str()).collect();
    assert_eq!(titles, vec!["Hello", "Second"]);
    let pages: Vec<&str> = content.pages.iter().map(|p| p.path.as_str()).collect();
    assert_eq!(pages, vec!["posts/hello.html", "posts/second.html"]);
    let names: Vec<&str> = content.categories.iter().map(|c| c.0.name.as_str()).collect();
    assert_eq!(names, vec!["Notes", "Dev"]);
    assert_eq!(content.categories[0].1.len(), 2);
    assert_eq!(content.categories[1].1.len(), 1);
}

#[test]
fn pages_at_the_root() {
    let input = site(Vec::new());
    let content = build_content_folder(&site(vec![hello()]), &config()).unwrap();
    let main = build_main_page(&input, &content.posts, "My Site").unwrap();
    assert_eq!(main.path, "index.html");
    assert!(main.contents.starts_with("\n<head>\n<title>My Site</title>"));
    let all = build_all_posts_page(&input, &content.posts, "My Site").unwrap();
    assert_eq!(all.path, "all.html");
    let index = build_categories_index_page(&input, &content.categories, "My Site").unwrap();
    assert_eq!(index.path, "categories.html");
    let pages = build_category_pages(&input, &content.categories, "My Site").unwrap();
    assert_eq!(pages.len(), 1);
    assert_eq!(pages[0].path, "notes.html");
}

#[test]
fn categories_index_links_each_category() {
    let content = build_content_folder(&site(vec![hello()]), &config()).unwrap();
    assert_eq!(
        create_categories_index_html(&content.categories),
        "<h2>Categories</h2>\n<ul>\n<li><a href=\"./notes.html\">Notes</a>\n\
         <div id=\"category-list\">\n<h2>Notes</h2>\n<ul>\n<li><a href=\"./posts/hello.html\">Hello - [1 May 2023]</a></li>\n</ul>\n</div>\n\
         </li>\n</ul>\n"
    );
}

#[test]
fn home_page_lists_ten_posts_at_most() {
    let posts: Vec<SourceFile> = (1..=12u32)
        .map(|i| source(&["posts"], &format!("note{}.md", i), &format!("---\ntitle: Note {}\ndate: 2023-01-{:02}\n---\nbody\n", i, i)))
        .collect();
    let files = build_site(&site(posts)).unwrap();
    let index = file(&files, "index.html");
    assert_eq!(index.contents.matches("<li>").count(), 10);
    assert!(index.contents.contains("Note 12 - [12 January 2023]"));
    assert!(index.contents.contains("Note 3 - [3 January 2023]"));
    assert!(!index.contents.contains("Note 2 - ["));
    assert!(!index.contents.contains("Note 1 - ["));
    assert_eq!(file(&files, "all.html").contents.matches("<li>").count(), 12);
}
