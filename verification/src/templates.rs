//! The parts that every page is composed of: head, header and footer.

use crate::error::{BuildError, SiteFile};
use crate::files::prepend_go_up_folder_to_path;
use crate::posts::{create_recent_posts_html, post_views, recent_posts_html, Post, PostView};
use crate::sources::SiteInput;
use crate::text::{first_occurrence_is_replaced, occurs_at, repeated, replace_all, replaced};
use vstd::prelude::*;
use vstd::string::StringExecFns;

verus! {

/// The HTML that `markdown::to_html` makes of the Markdown text `source`.
pub uninterp spec fn markdown_html(source: Seq<char>) -> Seq<char>;

/// `markdown::to_html` turns Markdown into HTML by the rules of CommonMark.
/// The contract claims that it returns for every text, and that the HTML
/// depends on the text alone.
pub assume_specification[ markdown::to_html ](value: &str) -> (html: String)
    ensures
        html@ == markdown_html(value@),
;

/// `html` as it must read on a page that lies `levels_down` folders below
/// the site root: for a positive `levels_down`, every `./` is replaced by
/// that many `../`.
pub open spec fn relinked(html: Seq<char>, levels_down: int) -> Seq<char> {
    if levels_down > 0 {
        replaced(html, "./"@, repeated("../"@, levels_down))
    } else {
        html
    }
}

/// On a page below the root a link climbs: the first `./` of `html` gives
/// way to `levels_down` times `../`, what stands before it stays, and what
/// follows is relinked in the same way.
pub proof fn first_link_climbs(before: Seq<char>, after: Seq<char>, levels_down: int)
    requires
        levels_down > 0,
        forall|i: int| 0 <= i < before.len() ==> !occurs_at(before + "./"@ + after, "./"@, i),
    ensures
        relinked(before + "./"@ + after, levels_down) == before + repeated("../"@, levels_down)
            + relinked(after, levels_down),
{
    reveal_strlit("./");
    first_occurrence_is_replaced(before, "./"@, repeated("../"@, levels_down), after);
}

/// The header of a page `levels_down` folders below the root, made from the
/// Markdown text `source`.
pub open spec fn header_block(source: Seq<char>, levels_down: int) -> Seq<char> {
    "<header>\n"@ + relinked(markdown_html(source), levels_down) + "\n</header>\n"@
}

/// The footer of a page `levels_down` folders below the root, made from the
/// Markdown text `source`.
pub open spec fn footer_block(source: Seq<char>, levels_down: int) -> Seq<char> {
    "<footer>\n"@ + relinked(markdown_html(source), levels_down) + "\n</footer>\n"@
}

/// `content` between header and footer, inside the container of the page
/// body.
pub open spec fn wrapped(
    header: Seq<char>,
    footer: Seq<char>,
    content: Seq<char>,
    levels_down: int,
) -> Seq<char> {
    "\n<body>\n<div id=\"container\">"@ + header_block(header, levels_down) + content
        + footer_block(footer, levels_down) + "</div></body>"@
}

/// `content` between the header and the footer of the site, or the file
/// that is missing: the header is looked for first.
pub open spec fn wrapped_page(
    header: Option<Seq<char>>,
    footer: Option<Seq<char>>,
    content: Seq<char>,
    levels_down: int,
) -> Result<Seq<char>, BuildError> {
    match header {
        None => Err(BuildError::MissingFile(SiteFile::Header)),
        Some(h) => match footer {
            None => Err(BuildError::MissingFile(SiteFile::Footer)),
            Some(f) => Ok(wrapped(h, f, content, levels_down)),
        },
    }
}

/// The path of the stylesheet as a page links it: one folder up where
/// `look_up` is set.
pub open spec fn style_path(look_up: bool) -> Seq<char> {
    repeated("../"@, if look_up { 1int } else { 0int }) + "style/style.css"@
}

/// `content` after a head with the title, the character set, the viewport
/// and the link to the stylesheet.
pub open spec fn with_head(content: Seq<char>, title: Seq<char>, look_up: bool) -> Seq<char> {
    "\n<head>\n<title>"@ + title
        + "</title>\n<meta charset=\"UTF-8\">\n<meta name=\"viewport\" content=\"width=device-width, initial-scale=1.0\">\n<link rel=\"stylesheet\" href=\""@
        + style_path(look_up) + "\">\n</head>\n"@ + content
}

/// `body` after a first-level heading with the title.
pub open spec fn with_title(body: Seq<char>, title: Seq<char>) -> Seq<char> {
    "<h1>"@ + title + "</h1>\n"@ + body
}

/// The body of the home page: the template, and on a new line the block of
/// the `num_posts` most recent posts.
pub open spec fn with_recent_posts(
    index_template: Seq<char>,
    posts: Seq<PostView>,
    num_posts: int,
) -> Seq<char> {
    index_template + "\n"@ + recent_posts_html(posts, num_posts)
}

/// Renders Markdown and, for a page below the root, redirects its `./`
/// links.
fn render_relinked(source: &str, levels_down: i8) -> (html: String)
    ensures
        html@ == relinked(markdown_html(source@), levels_down as int),
{
    let html = markdown::to_html(source);
    if levels_down > 0 {
        let prefix = prepend_go_up_folder_to_path("", levels_down);
        proof {
            reveal_strlit("");
            assert(prefix@ =~= repeated("../"@, levels_down as int));
        }
        replace_all(html.as_str(), "./", prefix.as_str())
    } else {
        html
    }
}

/// The header of the site for a page `levels_down` folders below the root.
///
/// Fails with `MissingFile(Header)` exactly where the site has no
/// `header.md`.
pub fn get_header(input: &SiteInput, levels_down: i8) -> (header: Result<String, BuildError>)
    ensures
        match header {
            Ok(block) => input@.header matches Some(source) && block@ == header_block(
                source,
                levels_down as int,
            ),
            Err(e) => input@.header is None && e == BuildError::MissingFile(SiteFile::Header),
        },
{
    match &input.header {
        None => Err(BuildError::MissingFile(SiteFile::Header)),
        Some(source) => {
            let mut block = "<header>\n".to_owned();
            let html = render_relinked(source.as_str(), levels_down);
            block.append(html.as_str());
            block.append("\n</header>\n");
            Ok(block)
        },
    }
}

/// The footer of the site for a page `levels_down` folders below the root.
///
/// Fails with `MissingFile(Footer)` exactly where the site has no
/// `footer.md`.
pub fn get_footer(input: &SiteInput, levels_down: i8) -> (footer: Result<String, BuildError>)
    ensures
        match footer {
            Ok(block) => input@.footer matches Some(source) && block@ == footer_block(
                source,
                levels_down as int,
            ),
            Err(e) => input@.footer is None && e == BuildError::MissingFile(SiteFile::Footer),
        },
{
    match &input.footer {
        None => Err(BuildError::MissingFile(SiteFile::Footer)),
        Some(source) => {
            let mut block = "<footer>\n".to_owned();
            let html = render_relinked(source.as_str(), levels_down);
            block.append(html.as_str());
            block.append("\n</footer>\n");
            Ok(block)
        },
    }
}

/// The body of the home page, as the site's `index.html` holds it.
///
/// Fails with `MissingFile(Index)` exactly where the site has no
/// `index.html`.
pub fn get_index_template(input: &SiteInput) -> (template: Result<String, BuildError>)
    ensures
        match template {
            Ok(text) => input@.index == Some(text@),
            Err(e) => input@.index is None && e == BuildError::MissingFile(SiteFile::Index),
        },
{
    match &input.index {
        None => Err(BuildError::MissingFile(SiteFile::Index)),
        Some(text) => Ok(text.clone()),
    }
}

/// Puts the block of the `num_posts` most recent posts after the template
/// of the home page, on a new line.
pub fn add_recent_posts(index_template: &str, posts: &Vec<Post>, num_posts: usize) -> (body: String)
    ensures
        body@ == with_recent_posts(index_template@, post_views(posts@), num_posts as int),
{
    let recent_posts_html = create_recent_posts_html(posts, num_posts);
    let mut body = index_template.to_owned();
    body.append("\n");
    body.append(recent_posts_html.as_str());
    body
}

/// Puts a first-level heading with `title` in front of `body`.
pub fn add_title_to_body(body: &str, title: &str) -> (body_with_title: String)
    ensures
        body_with_title@ == with_title(body@, title@),
{
    let mut body_with_title = "<h1>".to_owned();
    body_with_title.append(title);
    body_with_title.append("</h1>\n");
    body_with_title.append(body);
    body_with_title
}

/// Puts `content_block` between the header and the footer of the site, for a
/// page `levels_down` folders below the root, inside the container of the
/// page body.
///
/// Fails with `MissingFile(Header)` where the site has no `header.md`, else
/// with `MissingFile(Footer)` where it has no `footer.md`.
pub fn wrap_in_header_and_footer(input: &SiteInput, content_block: &str, levels_down: i8) -> (page:
    Result<String, BuildError>)
    ensures
        match page {
            Ok(html) => wrapped_page(
                input@.header,
                input@.footer,
                content_block@,
                levels_down as int,
            ) == Ok::<Seq<char>, BuildError>(html@),
            Err(e) => wrapped_page(
                input@.header,
                input@.footer,
                content_block@,
                levels_down as int,
            ) == Err::<Seq<char>, BuildError>(e),
        },
{
    let header_block = match get_header(input, levels_down) {
        Ok(block) => block,
        Err(e) => {
            return Err(e);
        },
    };
    let footer_block = match get_footer(input, levels_down) {
        Ok(block) => block,
        Err(e) => {
            return Err(e);
        },
    };
    let mut html = "\n<body>\n<div id=\"container\">".to_owned();
    html.append(header_block.as_str());
    html.append(content_block);
    html.append(footer_block.as_str());
    html.append("</div></body>");
    Ok(html)
}

/// Puts the head of a page in front of `content_block`: the title, the
/// character set, the viewport and the link to the stylesheet, which lies
/// one folder up where `look_up` is set. Never fails.
pub fn add_head(content_block: &str, title: &str, look_up: bool) -> (page: Result<
    String,
    BuildError,
>)
    ensures
        page matches Ok(html) && html@ == with_head(content_block@, title@, look_up),
{
    let style_path = if look_up {
        prepend_go_up_folder_to_path("style/style.css", 1)
    } else {
        prepend_go_up_folder_to_path("style/style.css", 0)
    };
    let mut html = "\n<head>\n<title>".to_owned();
    html.append(title);
    html.append(
        "</title>\n<meta charset=\"UTF-8\">\n<meta name=\"viewport\" content=\"width=device-width, initial-scale=1.0\">\n<link rel=\"stylesheet\" href=\"",
    );
    html.append(style_path.as_str());
    html.append("\">\n</head>\n");
    html.append(content_block);
    Ok(html)
}

} // verus!
