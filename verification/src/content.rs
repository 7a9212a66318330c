use crate::domain::Post;
use crate::errors::LoadError;
use crate::markdown::html_of;
use crate::parser::{doc_parse_spec, parse_markdown};
use vstd::prelude::*;
use vstd::string::StrSliceExecFns;

verus! {

/// One source document handed to the loader: where it came from and its
/// full text.
pub struct FileSource {
    pub path: String,
    pub content: String,
}

/// Whether a parsed document matches the source it came from.
pub open spec fn post_matches_source(p: Post, src: FileSource) -> bool {
    match doc_parse_spec(src.content@) {
        Ok(mb) => p.meta@ == mb.0 && p.content@ == html_of(mb.1),
        Err(_) => false,
    }
}

/// Loads every source document, all or nothing: either every document
/// parses and the posts come back in source order, or the load fails
/// with the first offending document's path and error, and no posts are
/// returned at all.
pub fn load_posts_from_sources(sources: &Vec<FileSource>) -> (r: Result<Vec<Post>, LoadError>)
    ensures
        match r {
            Ok(posts) => {
                &&& posts@.len() == sources@.len()
                &&& forall|i: int|
                    0 <= i < sources@.len() ==> post_matches_source(
                        #[trigger] posts@[i],
                        sources@[i],
                    )
            },
            Err(e) => exists|i: int|
                {
                    &&& 0 <= i < sources@.len()
                    &&& (forall|j: int|
                        0 <= j < i ==> doc_parse_spec((#[trigger] sources@[j]).content@) is Ok)
                    &&& doc_parse_spec((#[trigger] sources@[i]).content@) matches Err(pe) && pe
                        == e.error && e.path@ == sources@[i].path@
                },
        },
{
    let mut posts: Vec<Post> = Vec::new();
    let mut i: usize = 0;
    while i < sources.len()
        invariant
            i <= sources@.len(),
            posts@.len() == i,
            forall|t: int|
                0 <= t < i ==> post_matches_source(#[trigger] posts@[t], sources@[t]),
            forall|j: int| 0 <= j < i ==> doc_parse_spec((#[trigger] sources@[j]).content@) is Ok,
        decreases sources.len() - i,
    {
        match parse_markdown(sources[i].content.as_str()) {
            Ok(p) => {
                posts.push(p);
            },
            Err(e) => {
                return Err(LoadError { path: sources[i].path.clone(), error: e });
            },
        }
        i += 1;
    }
    Ok(posts)
}

/// Whether a file name is a stem followed by the markdown extension
/// `.md`. A name that is nothing but the extension (a hidden file) does
/// not count, as a file-extension check would also exclude it.
pub open spec fn is_markdown(name: Seq<char>) -> bool {
    name.len() > 3 && name.skip(name.len() - 3) == ".md"@
}

/// Whether `name` names a markdown file, as [`is_markdown`] describes.
pub fn is_markdown_name(name: &str) -> (r: bool)
    ensures
        r == is_markdown(name@),
{
    let n = name.unicode_len();
    if n <= 3 {
        return false;
    }
    let tail = name.substring_char(n - 3, n);
    proof {
        assert(name@.subrange(n as int - 3, n as int) =~= name@.skip(n as int - 3));
    }
    let expected = String::from_str(".md");
    tail.to_owned() == expected
}

} // verus!
