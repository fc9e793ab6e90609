//! File names and relative paths of generated pages.
//!
//! Paths are texts whose folders are separated by `/`.

use crate::text::{chars_of, repeated};
use vstd::prelude::*;
use vstd::string::StringExecFns;

verus! {

/// The index of the last `wanted` in `text`, or -1 where there is none.
pub open spec fn last_index_of(text: Seq<char>, wanted: char) -> int
    decreases text.len(),
{
    if text.len() == 0 {
        -1
    } else if text.last() == wanted {
        text.len() - 1
    } else {
        last_index_of(text.drop_last(), wanted)
    }
}

/// What follows the last `/` of `path`: all of `path` where it holds none.
pub open spec fn last_segment(path: Seq<char>) -> Seq<char> {
    path.skip(last_index_of(path, '/') + 1)
}

/// The file name that `path` ends in. Separators at the end and segments
/// that are a single dot are passed over; a path that ends in `..`, or that
/// has no other segment, has no file name.
pub open spec fn file_name_of(path: Seq<char>) -> Option<Seq<char>>
    decreases path.len(),
{
    if path.len() == 0 {
        None
    } else if path.last() == '/' {
        file_name_of(path.drop_last())
    } else if last_segment(path) == seq!['.'] {
        file_name_of(path.drop_last())
    } else if last_segment(path) == seq!['.', '.'] {
        None
    } else {
        Some(last_segment(path))
    }
}

/// The stem of the file name `name`: what stands before its last dot, and
/// all of `name` where it holds no dot or only one at its start.
pub open spec fn stem_of(name: Seq<char>) -> Seq<char> {
    if last_index_of(name, '.') <= 0 {
        name
    } else {
        name.take(last_index_of(name, '.'))
    }
}

/// The name of the page made from the source file at `path`: the stem of
/// its file name, then `.html`.
pub open spec fn html_file_name(path: Seq<char>) -> Option<Seq<char>> {
    match file_name_of(path) {
        Some(name) => Some(stem_of(name) + ".html"@),
        None => None,
    }
}

/// An index that holds `wanted` and has none after it is the last index.
proof fn last_index_found(text: Seq<char>, wanted: char, at: int)
    requires
        -1 <= at < text.len(),
        at >= 0 ==> text[at] == wanted,
        forall|i: int| at < i < text.len() ==> text[i] != wanted,
    ensures
        last_index_of(text, wanted) == at,
    decreases text.len(),
{
    if text.len() > 0 && text.last() != wanted {
        last_index_found(text.drop_last(), wanted, at);
    }
}

/// The page of a source file is named by the stem alone, whatever the
/// extension: a path made of a folder part `folder` (empty, or ending in
/// `/`), a stem without `/`, a dot and an extension without `/` or dot gives
/// `stem + ".html"`. Left out: the empty stem, and the name `..`, which is
/// no file name.
pub proof fn html_file_name_ignores_extension(
    folder: Seq<char>,
    stem: Seq<char>,
    extension: Seq<char>,
)
    requires
        folder.len() == 0 || folder.last() == '/',
        stem.len() > 0,
        !stem.contains('/'),
        !extension.contains('/'),
        !extension.contains('.'),
        !(stem == seq!['.'] && extension.len() == 0),
    ensures
        html_file_name(folder + stem + seq!['.'] + extension) == Some(stem + ".html"@),
{
    let name = stem + seq!['.'] + extension;
    let path = folder + stem + seq!['.'] + extension;
    assert(path =~= folder + name);
    // The name holds no separator, so it is the last segment of the path.
    assert forall|i: int| folder.len() - 1 < i < path.len() implies path[i] != '/' by {
        let k = i - folder.len();
        if k < stem.len() {
            assert(stem.contains(stem[k]));
        } else if k > stem.len() {
            assert(extension.contains(extension[k - stem.len() - 1]));
        }
    }
    last_index_found(path, '/', folder.len() - 1);
    assert(last_segment(path) =~= name);
    // Its last dot is the one that follows the stem.
    assert forall|i: int| stem.len() < i < name.len() implies name[i] != '.' by {
        assert(extension.contains(extension[i - stem.len() - 1]));
    }
    last_index_found(name, '.', stem.len() as int);
    assert(name.take(stem.len() as int) =~= stem);
    assert(name.len() >= 2);
    if name == seq!['.', '.'] {
        assert(name.len() == 2);
        assert(stem =~= seq![name[0]]);
        assert(extension.len() == 0);
    }
    assert(name != seq!['.']) by {
        if name == seq!['.'] {
            assert(name.len() == 1);
        }
    }
    assert(path.last() == name.last());
    assert(path.last() != '/');
}

/// The name of the page made from the source file at `file_name`: the stem
/// of the file name that the path ends in, then `.html`. `None` exactly
/// where the path ends in no file name.
pub fn create_html_file_name(file_name: &str) -> (html_name: Option<String>)
    ensures
        match html_name {
            Some(name) => html_file_name(file_name@) == Some(name@),
            None => html_file_name(file_name@) is None,
        },
{
    let chars = chars_of(file_name);
    // Find the end of the file name.
    let mut end: usize = chars.len();
    let mut start: usize = 0;
    let mut found = false;
    assert(chars@.take(end as int) =~= chars@);
    while end > 0 && !found
        invariant
            end <= chars.len(),
            chars@ == file_name@,
            file_name_of(file_name@) == file_name_of(chars@.take(end as int)),
            found ==> {
                &&& start < end
                &&& start as int == last_index_of(chars@.take(end as int), '/') + 1
                &&& chars@[end - 1] != '/'
                &&& last_segment(chars@.take(end as int)) != seq!['.']
            },
        decreases end + (if found { 0int } else { 1int }),
    {
        let ghost prefix = chars@.take(end as int);
        assert(prefix.drop_last() =~= chars@.take(end - 1));
        assert(prefix.last() == chars@[end - 1]);
        if chars[end - 1] == '/' {
            end = end - 1;
        } else {
            // Walk back to the separator before the segment.
            let mut s: usize = end - 1;
            while s > 0 && chars[s - 1] != '/'
                invariant
                    s < end <= chars.len(),
                    forall|i: int| s <= i < end ==> chars@[i] != '/',
                decreases s,
            {
                s = s - 1;
            }
            proof {
                assert forall|i: int| s - 1 < i < prefix.len() implies prefix[i] != '/' by {}
                last_index_found(prefix, '/', s - 1);
                assert(last_segment(prefix) =~= chars@.subrange(s as int, end as int));
            }
            if end - s == 1 && chars[s] == '.' {
                assert(last_segment(prefix) =~= seq!['.']);
                end = end - 1;
            } else {
                proof {
                    if last_segment(prefix) == seq!['.'] {
                        assert(last_segment(prefix).len() == 1);
                        assert(last_segment(prefix)[0] == '.');
                    }
                }
                start = s;
                found = true;
            }
        }
    }
    if !found {
        assert(chars@.take(0) =~= Seq::<char>::empty());
        return None;
    }
    let ghost prefix = chars@.take(end as int);
    let ghost name = last_segment(prefix);
    assert(name =~= chars@.subrange(start as int, end as int));
    assert(prefix.last() == chars@[end - 1]);
    if end - start == 2 && chars[start] == '.' && chars[start + 1] == '.' {
        assert(name =~= seq!['.', '.']);
        return None;
    }
    proof {
        if name == seq!['.', '.'] {
            assert(name.len() == 2);
            assert(name[0] == '.' && name[1] == '.');
        }
    }
    // Find the last dot of the name.
    let mut dot: usize = end;
    while dot > start && chars[dot - 1] != '.'
        invariant
            start <= dot <= end <= chars.len(),
            forall|i: int| dot <= i < end ==> chars@[i] != '.',
        decreases dot,
    {
        dot = dot - 1;
    }
    // `dot` is one past the last dot, or `start` where there is none.
    let stem_end: usize = if dot > start + 1 {
        dot - 1
    } else {
        end
    };
    proof {
        assert forall|i: int| dot - 1 - start < i < name.len() implies name[i] != '.' by {}
        last_index_found(name, '.', dot - 1 - start);
        assert(stem_of(name) =~= chars@.subrange(start as int, stem_end as int));
    }
    let mut html_name = String::new();
    let mut i: usize = start;
    while i < stem_end
        invariant
            start <= i <= stem_end <= chars.len(),
            html_name@ == chars@.subrange(start as int, i as int),
        decreases stem_end - i,
    {
        html_name.push(chars[i]);
        assert(chars@.subrange(start as int, i + 1) =~= chars@.subrange(start as int, i as int).push(
            chars@[i as int],
        ));
        i = i + 1;
    }
    html_name.append(".html");
    Some(html_name)
}

/// Puts `num` copies of `"../"` in front of `path`; a `num` of zero or less
/// leaves the path as it is.
pub fn prepend_go_up_folder_to_path(path: &str, num: i8) -> (new_path: String)
    ensures
        new_path@ == repeated("../"@, num as int) + path@,
{
    let mut new_path = String::new();
    let mut i: i8 = 0;
    while i < num
        invariant
            0 <= i,
            i <= num || i == 0,
            new_path@ == repeated("../"@, i as int),
        decreases num - i,
    {
        new_path.append("../");
        i = i + 1;
    }
    new_path.append(path);
    new_path
}

} // verus!
