use vstd::prelude::*;

verus! {

/// Mathematical image of a [`PostMeta`]: every string as a sequence of
/// characters, every list of strings as a sequence of such sequences.
pub struct PostMetaView {
    pub title: Seq<char>,
    pub date: Seq<char>,
    pub slug: Seq<char>,
    pub tags: Option<Seq<Seq<char>>>,
    pub categories: Option<Seq<Seq<char>>>,
}

/// Front-matter metadata of one document. The date is an opaque string:
/// it is never parsed or validated. The slug is used verbatim as a URL
/// path segment and as the document's output directory name.
#[derive(Debug, Clone, PartialEq, Eq)]
pub struct PostMeta {
    pub title: String,
    pub date: String,
    pub slug: String,
    pub tags: Option<Vec<String>>,
    pub categories: Option<Vec<String>>,
}

/// View of an optional list of strings as an optional sequence of
/// character sequences.
pub open spec fn opt_strings_view(v: Option<Vec<String>>) -> Option<Seq<Seq<char>>> {
    match v {
        Some(list) => Some(list@.map_values(|s: String| s@)),
        None => None,
    }
}

impl View for PostMeta {
    type V = PostMetaView;

    open spec fn view(&self) -> PostMetaView {
        PostMetaView {
            title: self.title@,
            date: self.date@,
            slug: self.slug@,
            tags: opt_strings_view(self.tags),
            categories: opt_strings_view(self.categories),
        }
    }
}

/// Mathematical image of a [`Post`].
pub struct PostView {
    pub meta: PostMetaView,
    pub content: Seq<char>,
}

/// One loaded document: its front-matter metadata plus the body already
/// rendered to HTML. Created once by the content loader and immutable
/// afterwards.
#[derive(Debug, Clone, PartialEq, Eq)]
pub struct Post {
    pub meta: PostMeta,
    pub content: String,
}

impl View for Post {
    type V = PostView;

    open spec fn view(&self) -> PostView {
        PostView { meta: self.meta@, content: self.content@ }
    }
}

/// Mathematical image of a [`Config`].
pub struct ConfigView {
    pub title: Seq<char>,
    pub base_url: Seq<char>,
    pub description: Option<Seq<char>>,
    pub posts_per_page: Option<usize>,
}

/// Site-wide configuration. Immutable for the duration of one build.
#[derive(Debug, PartialEq, Eq)]
pub struct Config {
    pub title: String,
    pub base_url: String,
    pub description: Option<String>,
    pub posts_per_page: Option<usize>,
}

impl View for Config {
    type V = ConfigView;

    open spec fn view(&self) -> ConfigView {
        ConfigView {
            title: self.title@,
            base_url: self.base_url@,
            description: match self.description {
                Some(d) => Some(d@),
                None => None,
            },
            posts_per_page: self.posts_per_page,
        }
    }
}

/// Copies an optional list of strings; the copy has the same view.
pub fn copy_opt_strings(v: &Option<Vec<String>>) -> (r: Option<Vec<String>>)
    ensures
        opt_strings_view(r) == opt_strings_view(*v),
{
    match v {
        Some(list) => {
            let mut out: Vec<String> = Vec::new();
            let mut i: usize = 0;
            while i < list.len()
                invariant
                    i <= list.len(),
                    out@.len() == i,
                    out@.map_values(|s: String| s@) =~= list@.map_values(|s: String| s@)
                        .take(i as int),
                decreases list.len() - i,
            {
                let s = list[i].clone();
                proof {
                    assert(s@ == list@[i as int]@);
                }
                out.push(s);
                proof {
                    assert(out@.len() == i + 1);
                    assert(out@[i as int]@ == list@[i as int]@);
                    assert(out@.map_values(|s: String| s@) =~= list@.map_values(|s: String| s@)
                        .take(i as int + 1));
                }
                i += 1;
            }
            proof {
                assert(out@.map_values(|s: String| s@) =~= list@.map_values(|s: String| s@));
            }
            Some(out)
        },
        None => None,
    }
}

impl Post {
    /// Copies the post; the copy has the same view as the original.
    pub fn duplicate(&self) -> (r: Post)
        ensures
            r@ == self@,
    {
        let r = Post {
            meta: PostMeta {
                title: self.meta.title.clone(),
                date: self.meta.date.clone(),
                slug: self.meta.slug.clone(),
                tags: copy_opt_strings(&self.meta.tags),
                categories: copy_opt_strings(&self.meta.categories),
            },
            content: self.content.clone(),
        };
        r
    }
}

} // verus!
