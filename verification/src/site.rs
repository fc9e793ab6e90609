//! The build: from the sources of a site to the files of the generated
//! site.

use crate::archive::{all_posts_html, group_by_year_as_html};
use crate::category::{category_list_html, create_category_list_html, Category, CategoryView};
use crate::config::{site_config_of, SiteConfig, SiteConfigView};
use crate::error::{BuildError, SiteFile};
use crate::feed::{build_rss_feed, feed_xml};
use crate::files::{create_html_file_name, html_file_name};
use crate::grouping::{category_views, group_by_category, grouped_by_category};
use crate::metadata::{metadata_and_body, MetaData};
use crate::posts::{post_views, Post, PostView};
use crate::sources::{
    output_views, source_views, OutputFile, OutputFileView, SiteInput, SiteInputView, SourceFile,
    SourceFileView,
};
use crate::templates::{
    add_head, add_recent_posts, add_title_to_body, get_index_template, markdown_html,
    with_head, with_recent_posts, with_title, wrap_in_header_and_footer, wrapped_page,
};
use vstd::prelude::*;
use vstd::string::StringExecFns;

verus! {

/// How many posts the home page lists.
pub const RECENT_POSTS: usize = 10;

/// The deepest that a source file can lie below the site root.
pub const MAX_DEPTH: usize = 127;

/// What the posts folder of a site gives: the posts, their categories, and
/// the page of each post.
#[derive(Debug)]
pub struct ContentFolder {
    /// The posts, in the order of their source files.
    pub posts: Vec<Post>,
    /// The categories that the posts name, each with its posts.
    pub categories: Vec<(Category, Vec<Post>)>,
    /// The page of each post, in the order of the posts.
    pub pages: Vec<OutputFile>,
}

/// What a `ContentFolder` stands for.
pub struct ContentFolderView {
    pub posts: Seq<PostView>,
    pub categories: Seq<(CategoryView, Seq<PostView>)>,
    pub pages: Seq<OutputFileView>,
}

impl View for ContentFolder {
    type V = ContentFolderView;

    open spec fn view(&self) -> ContentFolderView {
        ContentFolderView {
            posts: post_views(self.posts@),
            categories: category_views(self.categories@),
            pages: output_views(self.pages@),
        }
    }
}

/// The path of the folder that `folders` lead to, each folder followed by a
/// `/`.
pub open spec fn folder_path(folders: Seq<Seq<char>>) -> Seq<char>
    decreases folders.len(),
{
    if folders.len() == 0 {
        Seq::empty()
    } else {
        folder_path(folders.drop_last()) + folders.last() + "/"@
    }
}

/// The post made from `source`, and its page.
///
/// The body of the source is rendered as Markdown under a heading with the
/// title, wrapped in header and footer for the depth of the source's folder,
/// and given a head that looks for the stylesheet one folder up unless the
/// page lies at the root. The page is named after the stem of the source
/// file and lies in the folder of the source. The post links to it from the
/// root and, below the address `url`, from anywhere.
pub open spec fn built_post(
    source: SourceFileView,
    header: Option<Seq<char>>,
    footer: Option<Seq<char>>,
    url: Seq<char>,
) -> Result<(PostView, OutputFileView), BuildError> {
    match metadata_and_body(source.text) {
        Err(e) => Err(e),
        Ok((metadata, body)) => if source.folders.len() > MAX_DEPTH {
            Err(BuildError::NestedTooDeep)
        } else {
            let depth = source.folders.len() as int;
            match wrapped_page(
                header,
                footer,
                with_title(markdown_html(body), metadata.title),
                depth,
            ) {
                Err(e) => Err(e),
                Ok(page) => match html_file_name(source.name) {
                    None => Err(BuildError::UnnamedSource),
                    Some(name) => {
                        let relative = folder_path(source.folders) + name;
                        let content = with_head(page, metadata.title, depth > 0);
                        Ok(
                            (
                                PostView {
                                    metadata,
                                    content,
                                    path: "./"@ + relative,
                                    public_link: url + "/"@ + relative,
                                },
                                OutputFileView { path: relative, contents: content },
                            ),
                        )
                    },
                },
            }
        },
    }
}

/// The posts made from `sources` with their pages, in order, or the error
/// of the first source that fails.
pub open spec fn built_posts(
    sources: Seq<SourceFileView>,
    header: Option<Seq<char>>,
    footer: Option<Seq<char>>,
    url: Seq<char>,
) -> Result<Seq<(PostView, OutputFileView)>, BuildError>
    decreases sources.len(),
{
    if sources.len() == 0 {
        Ok(Seq::empty())
    } else {
        match built_posts(sources.drop_last(), header, footer, url) {
            Err(e) => Err(e),
            Ok(built) => match built_post(sources.last(), header, footer, url) {
                Err(e) => Err(e),
                Ok(post) => Ok(built.push(post)),
            },
        }
    }
}

/// What the posts folder of the site `input` gives.
pub open spec fn content_folder(input: SiteInputView, url: Seq<char>) -> Result<
    ContentFolderView,
    BuildError,
> {
    match built_posts(input.posts, input.header, input.footer, url) {
        Err(e) => Err(e),
        Ok(built) => {
            let posts = built.map_values(|b: (PostView, OutputFileView)| b.0);
            Ok(
                ContentFolderView {
                    posts,
                    categories: grouped_by_category(posts),
                    pages: built.map_values(|b: (PostView, OutputFileView)| b.1),
                },
            )
        },
    }
}

/// A page at the site root: `content` between header and footer, under a
/// head with `title`.
pub open spec fn root_page(input: SiteInputView, content: Seq<char>, title: Seq<char>) -> Result<
    Seq<char>,
    BuildError,
> {
    match wrapped_page(input.header, input.footer, content, 0) {
        Err(e) => Err(e),
        Ok(page) => Ok(with_head(page, title, false)),
    }
}

/// The file at `path` with a root page of `content`.
pub open spec fn root_file(
    input: SiteInputView,
    path: Seq<char>,
    content: Seq<char>,
    title: Seq<char>,
) -> Result<OutputFileView, BuildError> {
    match root_page(input, content, title) {
        Err(e) => Err(e),
        Ok(contents) => Ok(OutputFileView { path, contents }),
    }
}

/// The home page: the template of the site, then the most recent posts.
pub open spec fn main_page(input: SiteInputView, posts: Seq<PostView>, title: Seq<char>) -> Result<
    OutputFileView,
    BuildError,
> {
    match input.index {
        None => Err(BuildError::MissingFile(SiteFile::Index)),
        Some(template) => root_file(
            input,
            "index.html"@,
            with_recent_posts(template, posts, RECENT_POSTS as int),
            title,
        ),
    }
}

/// The entry of a category in the index of categories: a link to the page
/// of the category, then the list of its posts.
pub open spec fn category_entry(group: (CategoryView, Seq<PostView>)) -> Seq<char> {
    "<li><a href=\"./"@ + group.0.path + "\">"@ + group.0.name + "</a>\n"@ + category_list_html(
        group.0,
        group.1,
    ) + "</li>\n"@
}

/// The entries of `groups`, one after another.
pub open spec fn category_entries(groups: Seq<(CategoryView, Seq<PostView>)>) -> Seq<char>
    decreases groups.len(),
{
    if groups.len() == 0 {
        Seq::empty()
    } else {
        category_entries(groups.drop_last()) + category_entry(groups.last())
    }
}

/// The index of categories: under a heading, an entry for each category.
pub open spec fn categories_index_html(groups: Seq<(CategoryView, Seq<PostView>)>) -> Seq<char> {
    "<h2>Categories</h2>\n<ul>\n"@ + category_entries(groups) + "</ul>\n"@
}

/// The pages of `groups`, in order: for each category the list of its
/// posts, in the file that the category names.
pub open spec fn category_pages(
    input: SiteInputView,
    groups: Seq<(CategoryView, Seq<PostView>)>,
    title: Seq<char>,
) -> Result<Seq<OutputFileView>, BuildError>
    decreases groups.len(),
{
    if groups.len() == 0 {
        Ok(Seq::empty())
    } else {
        match category_pages(input, groups.drop_last(), title) {
            Err(e) => Err(e),
            Ok(pages) => match root_file(
                input,
                groups.last().0.path,
                category_list_html(groups.last().0, groups.last().1),
                title,
            ) {
                Err(e) => Err(e),
                Ok(page) => Ok(pages.push(page)),
            },
        }
    }
}

/// The files of the site made from `input`: the pages of the posts, the home
/// page, the archive, the index of categories, the pages of the categories,
/// and the feed. The first step that fails decides the error: the
/// configuration is read first, then the posts are built in order, then the
/// other pages in the order given.
pub open spec fn site_of(input: SiteInputView) -> Result<Seq<OutputFileView>, BuildError> {
    match site_config_of(input.config) {
        Err(e) => Err(e),
        Ok(config) => match content_folder(input, config.url) {
            Err(e) => Err(e),
            Ok(content) => match main_page(input, content.posts, config.title) {
                Err(e) => Err(e),
                Ok(home) => match root_file(
                    input,
                    "all.html"@,
                    all_posts_html(content.posts),
                    config.title,
                ) {
                    Err(e) => Err(e),
                    Ok(archive) => match root_file(
                        input,
                        "categories.html"@,
                        categories_index_html(content.categories),
                        config.title,
                    ) {
                        Err(e) => Err(e),
                        Ok(index) => match category_pages(
                            input,
                            content.categories,
                            config.title,
                        ) {
                            Err(e) => Err(e),
                            Ok(pages) => Ok(
                                content.pages.push(home).push(archive).push(index) + pages
                                    + seq![
                                    OutputFileView {
                                        path: "feed.xml"@,
                                        contents: feed_xml(content.posts, config),
                                    },
                                ],
                            ),
                        },
                    },
                },
            },
        },
    }
}

/// The path of the folder that `folders` lead to.
fn join_folders(folders: &Vec<String>) -> (path: String)
    ensures
        path@ == folder_path(folders@.map_values(|s: String| s@)),
{
    let ghost names = folders@.map_values(|s: String| s@);
    let mut path = String::new();
    let mut i: usize = 0;
    proof {
        assert(names.take(0) =~= Seq::<Seq<char>>::empty());
    }
    while i < folders.len()
        invariant
            i <= folders@.len(),
            names == folders@.map_values(|s: String| s@),
            path@ == folder_path(names.take(i as int)),
        decreases folders@.len() - i,
    {
        path.append(folders[i].as_str());
        path.append("/");
        proof {
            let next = names.take(i + 1);
            assert(next.drop_last() =~= names.take(i as int));
            assert(next.last() == folders@[i as int]@);
        }
        i = i + 1;
    }
    proof {
        assert(names.take(i as int) =~= names);
    }
    path
}

/// Builds the post of one source file, and its page.
///
/// Fails as reading the metadata fails; with `NestedTooDeep` where the
/// source lies more than `MAX_DEPTH` folders below the root; with
/// `MissingFile` where the site has no header or no footer; with
/// `UnnamedSource` where the name of the source ends in no file name. The
/// first of these that applies decides.
pub fn build_post(source: &SourceFile, input: &SiteInput, config: &SiteConfig) -> (built: Result<
    (Post, OutputFile),
    BuildError,
>)
    ensures
        match built {
            Ok((post, page)) => built_post(source@, input@.header, input@.footer, config@.url)
                matches Ok(b) && b.0 == post@ && b.1 == page@,
            Err(e) => built_post(source@, input@.header, input@.footer, config@.url) matches Err(
                err,
            ) && err == e,
        },
{
    let (metadata, body) = match MetaData::read_metadata_and_contents(source.text.as_str()) {
        Ok(read) => read,
        Err(e) => {
            return Err(e);
        },
    };
    if source.folders.len() > MAX_DEPTH {
        return Err(BuildError::NestedTooDeep);
    }
    let depth = source.folders.len() as i8;
    let post_html = markdown::to_html(body);
    let html_body = add_title_to_body(post_html.as_str(), metadata.title.as_str());
    let wrapped_html = match wrap_in_header_and_footer(input, html_body.as_str(), depth) {
        Ok(html) => html,
        Err(e) => {
            return Err(e);
        },
    };
    let wrapped_html_with_head = match add_head(
        wrapped_html.as_str(),
        metadata.title.as_str(),
        depth > 0,
    ) {
        Ok(html) => html,
        Err(e) => {
            return Err(e);
        },
    };
    let html_file_name = match create_html_file_name(source.name.as_str()) {
        Some(name) => name,
        None => {
            return Err(BuildError::UnnamedSource);
        },
    };
    let mut relative = join_folders(&source.folders);
    relative.append(html_file_name.as_str());
    let mut link_path = "./".to_owned();
    link_path.append(relative.as_str());
    let mut public_link = config.url.clone();
    public_link.append("/");
    public_link.append(relative.as_str());
    let page = OutputFile { path: relative, contents: wrapped_html_with_head.clone() };
    let post = Post {
        metadata,
        content: wrapped_html_with_head,
        path: link_path,
        public_link,
    };
    Ok((post, page))
}

/// Builds the posts of the site with their pages, and groups the posts by
/// category.
///
/// Fails as the first source in order fails for which `build_post` fails.
pub fn build_content_folder(input: &SiteInput, config: &SiteConfig) -> (built: Result<
    ContentFolder,
    BuildError,
>)
    ensures
        match built {
            Ok(content) => content_folder(input@, config@.url) matches Ok(c) && c == content@,
            Err(e) => content_folder(input@, config@.url) matches Err(err) && err == e,
        },
{
    let ghost sources = source_views(input.posts@);
    let mut posts: Vec<Post> = Vec::new();
    let mut pages: Vec<OutputFile> = Vec::new();
    let mut i: usize = 0;
    proof {
        assert(sources.take(0) =~= Seq::<SourceFileView>::empty());
    }
    while i < input.posts.len()
        invariant
            i <= input.posts@.len(),
            sources == source_views(input.posts@),
            sources == input@.posts,
            posts@.len() == i,
            pages@.len() == i,
            built_posts(sources.take(i as int), input@.header, input@.footer, config@.url)
                matches Ok(b) && b.len() == i && (forall|j: int|
                0 <= j < i ==> (#[trigger] b[j]).0 == posts@[j]@ && b[j].1 == pages@[j]@),
        decreases input.posts@.len() - i,
    {
        let ghost next = sources.take(i + 1);
        proof {
            assert(next.drop_last() =~= sources.take(i as int));
            assert(next.last() == input.posts@[i as int]@);
        }
        match build_post(&input.posts[i], input, config) {
            Ok((post, page)) => {
                posts.push(post);
                pages.push(page);
            },
            Err(e) => {
                proof {
                    failure_stays(sources, input@.header, input@.footer, config@.url, i + 1);
                    assert(sources.take(sources.len() as int) =~= sources);
                }
                return Err(e);
            },
        }
        i = i + 1;
    }
    proof {
        assert(sources.take(i as int) =~= sources);
        let b = built_posts(sources, input@.header, input@.footer, config@.url)->Ok_0;
        assert(b.map_values(|b: (PostView, OutputFileView)| b.0) =~= post_views(posts@));
        assert(b.map_values(|b: (PostView, OutputFileView)| b.1) =~= output_views(pages@));
    }
    let categories = group_by_category(&posts);
    Ok(ContentFolder { posts, categories, pages })
}

/// Once the first `count` sources fail, all of them fail, with the same
/// error.
proof fn failure_stays(
    sources: Seq<SourceFileView>,
    header: Option<Seq<char>>,
    footer: Option<Seq<char>>,
    url: Seq<char>,
    count: int,
)
    requires
        0 <= count <= sources.len(),
        built_posts(sources.take(count), header, footer, url) is Err,
    ensures
        built_posts(sources, header, footer, url) == built_posts(
            sources.take(count),
            header,
            footer,
            url,
        ),
    decreases sources.len() - count,
{
    if count < sources.len() {
        let next = sources.take(count + 1);
        assert(next.drop_last() =~= sources.take(count));
        failure_stays(sources, header, footer, url, count + 1);
    } else {
        assert(sources.take(count) =~= sources);
    }
}

/// Wraps `content` as a page at the site root, in the file at `path`.
fn build_root_file(input: &SiteInput, path: &str, content: &str, site_title: &str) -> (built:
    Result<OutputFile, BuildError>)
    ensures
        match built {
            Ok(file) => root_file(input@, path@, content@, site_title@) matches Ok(f) && f
                == file@,
            Err(e) => root_file(input@, path@, content@, site_title@) matches Err(err) && err == e,
        },
{
    let wrapped_index = match wrap_in_header_and_footer(input, content, 0) {
        Ok(html) => html,
        Err(e) => {
            return Err(e);
        },
    };
    match add_head(wrapped_index.as_str(), site_title, false) {
        Ok(contents) => Ok(OutputFile { path: path.to_owned(), contents }),
        Err(e) => Err(e),
    }
}

/// Builds the home page, `index.html`: the template of the site and the
/// `RECENT_POSTS` most recent posts, as a page at the root.
///
/// Fails with `MissingFile(Index)` where the site has no `index.html`, else
/// with `MissingFile` where it has no header or no footer.
pub fn build_main_page(input: &SiteInput, posts: &Vec<Post>, site_title: &str) -> (built: Result<
    OutputFile,
    BuildError,
>)
    ensures
        match built {
            Ok(file) => main_page(input@, post_views(posts@), site_title@) matches Ok(f) && f
                == file@,
            Err(e) => main_page(input@, post_views(posts@), site_title@) matches Err(err) && err
                == e,
        },
{
    let index_template = match get_index_template(input) {
        Ok(template) => template,
        Err(e) => {
            return Err(e);
        },
    };
    let index_content = add_recent_posts(index_template.as_str(), posts, RECENT_POSTS);
    build_root_file(input, "index.html", index_content.as_str(), site_title)
}

/// Builds the archive, `all.html`: all posts by year, as a page at the root.
///
/// Fails with `MissingFile` where the site has no header or no footer.
pub fn build_all_posts_page(input: &SiteInput, posts: &Vec<Post>, site_title: &str) -> (built:
    Result<OutputFile, BuildError>)
    ensures
        match built {
            Ok(file) => root_file(
                input@,
                "all.html"@,
                all_posts_html(post_views(posts@)),
                site_title@,
            ) matches Ok(f) && f == file@,
            Err(e) => root_file(
                input@,
                "all.html"@,
                all_posts_html(post_views(posts@)),
                site_title@,
            ) matches Err(err) && err == e,
        },
{
    let content = group_by_year_as_html(posts);
    build_root_file(input, "all.html", content.as_str(), site_title)
}

/// The index of categories: under a heading, for each category a link to
/// its page and the list of its posts.
pub fn create_categories_index_html(categories: &Vec<(Category, Vec<Post>)>) -> (html: String)
    ensures
        html@ == categories_index_html(category_views(categories@)),
{
    let ghost groups = category_views(categories@);
    let mut html = "<h2>Categories</h2>\n<ul>\n".to_owned();
    let mut i: usize = 0;
    proof {
        assert(groups.take(0) =~= Seq::<(CategoryView, Seq<PostView>)>::empty());
        assert(html@ =~= "<h2>Categories</h2>\n<ul>\n"@ + category_entries(groups.take(0)));
    }
    while i < categories.len()
        invariant
            i <= categories@.len(),
            groups == category_views(categories@),
            html@ == "<h2>Categories</h2>\n<ul>\n"@ + category_entries(groups.take(i as int)),
        decreases categories@.len() - i,
    {
        let category = &categories[i].0;
        let ghost before = html@;
        let category_list = create_category_list_html(category, &categories[i].1);
        html.append("<li><a href=\"./");
        html.append(category.path.as_str());
        html.append("\">");
        html.append(category.name.as_str());
        html.append("</a>\n");
        html.append(category_list.as_str());
        html.append("</li>\n");
        proof {
            let next = groups.take(i + 1);
            assert(next.drop_last() =~= groups.take(i as int));
            assert(next.last() == groups[i as int]);
            assert(html@ =~= before + category_entry(groups[i as int]));
        }
        i = i + 1;
    }
    proof {
        assert(groups.take(i as int) =~= groups);
    }
    html.append("</ul>\n");
    html
}

/// Builds the index of categories, `categories.html`, as a page at the
/// root.
///
/// Fails with `MissingFile` where the site has no header or no footer.
pub fn build_categories_index_page(
    input: &SiteInput,
    categories: &Vec<(Category, Vec<Post>)>,
    site_title: &str,
) -> (built: Result<OutputFile, BuildError>)
    ensures
        match built {
            Ok(file) => root_file(
                input@,
                "categories.html"@,
                categories_index_html(category_views(categories@)),
                site_title@,
            ) matches Ok(f) && f == file@,
            Err(e) => root_file(
                input@,
                "categories.html"@,
                categories_index_html(category_views(categories@)),
                site_title@,
            ) matches Err(err) && err == e,
        },
{
    let content = create_categories_index_html(categories);
    build_root_file(input, "categories.html", content.as_str(), site_title)
}

/// Builds the page of each category: the list of its posts as a page at the
/// root, in the file that the category names.
///
/// Fails with `MissingFile` where there is a category and the site has no
/// header or no footer.
pub fn build_category_pages(
    input: &SiteInput,
    categories: &Vec<(Category, Vec<Post>)>,
    site_title: &str,
) -> (built: Result<Vec<OutputFile>, BuildError>)
    ensures
        match built {
            Ok(files) => category_pages(input@, category_views(categories@), site_title@)
                matches Ok(f) && f == output_views(files@),
            Err(e) => category_pages(input@, category_views(categories@), site_title@)
                matches Err(err) && err == e,
        },
{
    let ghost groups = category_views(categories@);
    let mut files: Vec<OutputFile> = Vec::new();
    let mut i: usize = 0;
    proof {
        assert(groups.take(0) =~= Seq::<(CategoryView, Seq<PostView>)>::empty());
        assert(output_views(files@) =~= Seq::<OutputFileView>::empty());
    }
    while i < categories.len()
        invariant
            i <= categories@.len(),
            groups == category_views(categories@),
            category_pages(input@, groups.take(i as int), site_title@) matches Ok(f) && f
                == output_views(files@),
        decreases categories@.len() - i,
    {
        let category = &categories[i].0;
        let content = create_category_list_html(category, &categories[i].1);
        let ghost next = groups.take(i + 1);
        let ghost before = output_views(files@);
        proof {
            assert(next.drop_last() =~= groups.take(i as int));
            assert(next.last() == groups[i as int]);
        }
        match build_root_file(input, category.path.as_str(), content.as_str(), site_title) {
            Ok(file) => {
                files.push(file);
                proof {
                    assert(output_views(files@) =~= before.push(file@));
                }
            },
            Err(e) => {
                proof {
                    page_failure_stays(input@, groups, site_title@, i + 1);
                }
                return Err(e);
            },
        }
        i = i + 1;
    }
    proof {
        assert(groups.take(i as int) =~= groups);
    }
    Ok(files)
}

/// Once the pages of the first `count` categories fail, the pages of all
/// fail, with the same error.
proof fn page_failure_stays(
    input: SiteInputView,
    groups: Seq<(CategoryView, Seq<PostView>)>,
    title: Seq<char>,
    count: int,
)
    requires
        0 <= count <= groups.len(),
        category_pages(input, groups.take(count), title) is Err,
    ensures
        category_pages(input, groups, title) == category_pages(input, groups.take(count), title),
    decreases groups.len() - count,
{
    if count < groups.len() {
        let next = groups.take(count + 1);
        assert(next.drop_last() =~= groups.take(count));
        page_failure_stays(input, groups, title, count + 1);
    } else {
        assert(groups.take(count) =~= groups);
    }
}

/// A site that lacks one of its four required files cannot be built; one
/// that lacks its configuration fails on that.
pub proof fn required_files_are_required(input: SiteInputView)
    ensures
        input.config is None ==> site_of(input) == Err::<Seq<OutputFileView>, BuildError>(
            BuildError::MissingFile(SiteFile::Config),
        ),
        input.header is None || input.footer is None || input.index is None ==> site_of(input)
            is Err,
{
}

/// Builds the site: the pages of the posts, the home page `index.html`, the
/// archive `all.html`, the index of categories `categories.html`, a page
/// for each category, and the feed `feed.xml`, in this order.
///
/// The first step that fails decides the error, and no file is handed out:
/// the configuration is read first, then the posts are built in the order
/// of their sources, then the other pages in the order above. A site
/// without `header.md` is never built.
pub fn build_site(input: &SiteInput) -> (built: Result<Vec<OutputFile>, BuildError>)
    ensures
        match built {
            Ok(files) => site_of(input@) matches Ok(f) && f == output_views(files@),
            Err(e) => site_of(input@) matches Err(err) && err == e,
        },
        input@.header is None ==> built is Err,
{
    let config = match SiteConfig::read_site_config(input) {
        Ok(config) => config,
        Err(e) => {
            return Err(e);
        },
    };
    let content = match build_content_folder(input, &config) {
        Ok(content) => content,
        Err(e) => {
            return Err(e);
        },
    };
    let home = match build_main_page(input, &content.posts, config.title.as_str()) {
        Ok(file) => file,
        Err(e) => {
            return Err(e);
        },
    };
    let archive = match build_all_posts_page(input, &content.posts, config.title.as_str()) {
        Ok(file) => file,
        Err(e) => {
            return Err(e);
        },
    };
    let index = match build_categories_index_page(
        input,
        &content.categories,
        config.title.as_str(),
    ) {
        Ok(file) => file,
        Err(e) => {
            return Err(e);
        },
    };
    let mut category_files = match build_category_pages(
        input,
        &content.categories,
        config.title.as_str(),
    ) {
        Ok(files) => files,
        Err(e) => {
            return Err(e);
        },
    };
    let feed = OutputFile {
        path: "feed.xml".to_owned(),
        contents: build_rss_feed(&content.posts, &config),
    };
    let ghost pages = output_views(content.pages@);
    let ghost others = output_views(category_files@);
    let mut files = content.pages;
    files.push(home);
    files.push(archive);
    files.push(index);
    files.append(&mut category_files);
    files.push(feed);
    proof {
        assert(output_views(files@) =~= pages.push(home@).push(archive@).push(index@) + others
            + seq![feed@]);
    }
    Ok(files)
}

} // verus!
