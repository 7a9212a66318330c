use crate::domain::{Config, ConfigView, Post, PostView};
use crate::errors::BuildError;
use crate::render::Renderer;
use crate::seo::{generate_rss, generate_sitemap, rss_spec, sitemap_spec};
use vstd::prelude::*;
use vstd::string::StringExecFns;

verus! {

/// One file of the planned output: its path relative to the output root
/// (with `/` separators) and its full contents.
pub struct OutputFile {
    pub rel_path: String,
    pub contents: String,
}

impl View for OutputFile {
    type V = (Seq<char>, Seq<char>);

    open spec fn view(&self) -> (Seq<char>, Seq<char>) {
        (self.rel_path@, self.contents@)
    }
}

/// The output path of one post's detail page: `posts/<slug>/index.html`.
pub open spec fn post_page_path(slug: Seq<char>) -> Seq<char> {
    "posts/"@ + slug + "/index.html"@
}

/// The shape of one planned build over `posts`: the index page first,
/// then the sitemap and RSS feed with their exact bytes, then one detail
/// page per post, in post order, each under `posts/<slug>/index.html`.
/// The two rendered page kinds (index and detail pages) carry whatever
/// bytes the template engine returned — those are fixed per engine and
/// context instance only (see [`crate::render::render_outcome`]);
/// everything else is pinned byte for byte.
pub open spec fn plan_matches(
    files: Seq<(Seq<char>, Seq<char>)>,
    posts: Seq<PostView>,
    config: ConfigView,
) -> bool {
    &&& files.len() == 3 + posts.len()
    &&& files[0].0 == "index.html"@
    &&& files[1] == ("sitemap.xml"@, sitemap_spec(posts, config))
    &&& files[2] == ("rss.xml"@, rss_spec(posts, config))
    &&& forall|i: int|
        0 <= i < posts.len() ==> (#[trigger] files[3 + i]).0 == post_page_path(
            posts[i].meta.slug,
        )
}

/// Whether two posts share one slug, so one output page would silently
/// overwrite the other.
pub open spec fn has_duplicate_slug(posts: Seq<PostView>) -> bool {
    exists|i: int, j: int|
        0 <= i < j < posts.len() && (#[trigger] posts[i]).meta.slug == (
        #[trigger] posts[j]).meta.slug
}

/// Finds a pair of posts sharing one slug, if any.
fn find_duplicate_slug(posts: &Vec<Post>) -> (r: Option<String>)
    ensures
        r is Some <==> has_duplicate_slug(posts@.map_values(|p: Post| p@)),
{
    let ghost views = posts@.map_values(|p: Post| p@);
    let mut i: usize = 0;
    while i < posts.len()
        invariant
            i <= posts.len(),
            views == posts@.map_values(|p: Post| p@),
            forall|a: int, b: int|
                0 <= a < b < views.len() && a < i ==> (#[trigger] views[a]).meta.slug != (
                #[trigger] views[b]).meta.slug,
        decreases posts.len() - i,
    {
        let mut j: usize = i + 1;
        while j < posts.len()
            invariant
                i < j <= posts.len(),
                i < posts.len(),
                views == posts@.map_values(|p: Post| p@),
                forall|b: int|
                    i < b < j ==> (#[trigger] views[b]).meta.slug != views[i as int].meta.slug,
            decreases posts.len() - j,
        {
            if posts[i].meta.slug == posts[j].meta.slug {
                proof {
                    assert(views[i as int].meta.slug == views[j as int].meta.slug);
                }
                return Some(posts[j].meta.slug.clone());
            }
            j += 1;
        }
        i += 1;
    }
    proof {
        if has_duplicate_slug(views) {
            let (a, b) = choose|a: int, b: int|
                0 <= a < b < views.len() && (#[trigger] views[a]).meta.slug == (
                #[trigger] views[b]).meta.slug;
        }
    }
    None
}

/// Plans one full build in memory: checks that no two posts share a
/// slug, renders the index through the renderer, forms the sitemap and
/// RSS feed, and renders each post's detail page. Nothing is written
/// anywhere: a failed plan therefore leaves any previously written
/// output untouched. On success the files are exactly [`plan_spec`], in
/// that order; a shared slug always fails; when no slug is shared, the
/// only failures are the renderer's.
pub fn plan_build(renderer: &Renderer, posts: &Vec<Post>, config: &Config) -> (r: Result<
    Vec<OutputFile>,
    BuildError,
>)
    ensures
        r matches Ok(files) ==> {
            &&& plan_matches(
                files@.map_values(|f: OutputFile| f@),
                posts@.map_values(|p: Post| p@),
                config@,
            )
            &&& !has_duplicate_slug(posts@.map_values(|p: Post| p@))
        },
        has_duplicate_slug(posts@.map_values(|p: Post| p@)) ==> (r matches Err(e) && e
            is DuplicateSlug),
        !has_duplicate_slug(posts@.map_values(|p: Post| p@)) ==> (r matches Err(e) ==> e
            is Render),
{
    let ghost views = posts@.map_values(|p: Post| p@);
    match find_duplicate_slug(posts) {
        Some(slug) => {
            return Err(BuildError::DuplicateSlug { slug });
        },
        None => (),
    }
    let index_html = match renderer.render_index(posts, config) {
        Ok(s) => s,
        Err(e) => {
            return Err(e);
        },
    };
    let sitemap_xml = match generate_sitemap(posts, config) {
        Ok(s) => s,
        Err(e) => {
            return Err(e);
        },
    };
    let rss_xml = match generate_rss(posts, config) {
        Ok(s) => s,
        Err(e) => {
            return Err(e);
        },
    };
    let mut files: Vec<OutputFile> = Vec::new();
    files.push(OutputFile { rel_path: String::from_str("index.html"), contents: index_html });
    files.push(OutputFile { rel_path: String::from_str("sitemap.xml"), contents: sitemap_xml });
    files.push(OutputFile { rel_path: String::from_str("rss.xml"), contents: rss_xml });
    let mut i: usize = 0;
    while i < posts.len()
        invariant
            i <= posts.len(),
            views == posts@.map_values(|p: Post| p@),
            files@.len() == 3 + i,
            files@[0]@.0 == "index.html"@,
            files@[1]@ == ("sitemap.xml"@, sitemap_spec(views, config@)),
            files@[2]@ == ("rss.xml"@, rss_spec(views, config@)),
            forall|t: int|
                0 <= t < i ==> (#[trigger] files@[3 + t])@.0 == post_page_path(
                    views[t].meta.slug,
                ),
            !has_duplicate_slug(views),
        decreases posts.len() - i,
    {
        let post_html = match renderer.render_post(&posts[i], config) {
            Ok(s) => s,
            Err(e) => {
                return Err(e);
            },
        };
        let mut path = String::from_str("posts/");
        path.append(posts[i].meta.slug.as_str());
        path.append("/index.html");
        let ghost entry_path = path@;
        files.push(OutputFile { rel_path: path, contents: post_html });
        proof {
            assert(views[i as int] == posts@[i as int]@);
            assert(entry_path =~= post_page_path(views[i as int].meta.slug));
            assert(files@[3 + i as int]@.0 == entry_path);
        }
        i += 1;
    }
    proof {
        let fviews = files@.map_values(|f: OutputFile| f@);
        assert(forall|k: int| 0 <= k < files@.len() ==> (#[trigger] fviews[k]) == files@[k]@);
        assert(plan_matches(fviews, views, config@));
    }
    Ok(files)
}

/// Build idempotence law, as far as the system guarantees it: two plans
/// over the same posts and configuration have the same length, the same
/// paths position by position, and byte-identical sitemap and RSS feeds.
/// The rendered pages' bytes are the template engine's output, fixed per
/// engine and context instance only (see
/// [`crate::render::render_outcome`]), so they are not pinned by the
/// inputs alone.
pub proof fn lemma_plan_fixed_parts_deterministic(
    posts: Seq<PostView>,
    config: ConfigView,
    first: Seq<(Seq<char>, Seq<char>)>,
    second: Seq<(Seq<char>, Seq<char>)>,
)
    requires
        plan_matches(first, posts, config),
        plan_matches(second, posts, config),
    ensures
        first.len() == second.len(),
        forall|i: int| 0 <= i < first.len() ==> (#[trigger] first[i]).0 == second[i].0,
        first[1] == second[1],
        first[2] == second[2],
{
    assert forall|i: int| 0 <= i < first.len() implies (#[trigger] first[i]).0 == second[i].0 by {
        if i >= 3 {
            assert(first[3 + (i - 3)].0 == post_page_path(posts[i - 3].meta.slug));
            assert(second[3 + (i - 3)].0 == post_page_path(posts[i - 3].meta.slug));
        }
    }
}

} // verus!
