use sitegen::files::{create_html_file_name, prepend_go_up_folder_to_path};

#[test]
fn html_name_is_stem_plus_html() {
    assert_eq!(create_html_file_name("hello.md"), Some("hello.html".to_string()));
    assert_eq!(create_html_file_name("posts/hello.md"), Some("hello.html".to_string()));
    assert_eq!(create_html_file_name("/site/posts/hello.markdown"), Some("hello.html".to_string()));
    assert_eq!(create_html_file_name("posts/hello.txt"), Some("hello.html".to_string()));
}

#[test]
fn html_name_without_extension_or_with_leading_dot() {
    assert_eq!(create_html_file_name("notes"), Some("notes.html".to_string()));
    assert_eq!(create_html_file_name(".hidden"), Some(".hidden.html".to_string()));
    assert_eq!(create_html_file_name("a.b.c"), Some("a.b.html".to_string()));
    assert_eq!(create_html_file_name("trailing."), Some("trailing.html".to_string()));
}

#[test]
fn html_name_of_paths_without_file_name() {
    assert_eq!(create_html_file_name(""), None);
    assert_eq!(create_html_file_name("/"), None);
    assert_eq!(create_html_file_name(".."), None);
    assert_eq!(create_html_file_name("posts/.."), None);
    assert_eq!(create_html_file_name("."), None);
}

#[test]
fn html_name_passes_over_trailing_separators_and_dots() {
    assert_eq!(create_html_file_name("posts/hello.md/"), Some("hello.html".to_string()));
    assert_eq!(create_html_file_name("posts/hello.md/."), Some("hello.html".to_string()));
    assert_eq!(create_html_file_name("posts//"), Some("posts.html".to_string()));
}

#[test]
fn html_name_agrees_with_std_path() {
    let samples = [
        "hello.md", "posts/hello.md", "a/b/c.tar.gz", ".hidden", "..", ".", "", "/", "a/.", "a/..",
        "a//", "./.", "./a", "a/./", "..x", "...", "a.", "x/.y.z", "//", "a/b/", "/..", "é/ü.md",
    ];
    for sample in samples {
        let expected = std::path::Path::new(sample)
            .file_stem()
            .map(|stem| format!("{}.html", stem.to_string_lossy()));
        assert_eq!(create_html_file_name(sample), expected, "for {:?}", sample);
    }
}

#[test]
fn go_up_prefix() {
    assert_eq!(prepend_go_up_folder_to_path("style/style.css", 1), "../style/style.css");
    assert_eq!(prepend_go_up_folder_to_path("a", 3), "../../../a");
    assert_eq!(prepend_go_up_folder_to_path("a", 0), "a");
    assert_eq!(prepend_go_up_folder_to_path("a", -2), "a");
}
