use crate::domain::{Config, ConfigView, Post, PostView};
use crate::errors::BuildError;
use crate::strutil::{push_char, trim_slashes, trim_trailing_slashes};
use vstd::prelude::*;
use vstd::string::{StrSliceExecFns, StringExecFns};

verus! {

/// One sitemap URL entry for a post: `base + "/posts/" + slug + "/"`.
pub open spec fn sitemap_url_entry(base: Seq<char>, slug: Seq<char>) -> Seq<char> {
    "  <url><loc>"@ + base + "/posts/"@ + slug + "/</loc></url>\n"@
}

/// The sitemap entries of all posts, in post order.
pub open spec fn sitemap_entries(posts: Seq<PostView>, base: Seq<char>) -> Seq<char>
    decreases posts.len(),
{
    if posts.len() == 0 {
        Seq::empty()
    } else {
        sitemap_entries(posts.drop_last(), base) + sitemap_url_entry(base, posts.last().meta.slug)
    }
}

/// The complete sitemap document: one URL for the site root plus one per
/// post, against the slash-trimmed base URL.
pub open spec fn sitemap_spec(posts: Seq<PostView>, config: ConfigView) -> Seq<char> {
    let base = trim_slashes(config.base_url);
    "<?xml version=\"1.0\" encoding=\"UTF-8\"?>\n<urlset xmlns=\"http://www.sitemaps.org/schemas/sitemap/0.9\">\n"@
        + "  <url><loc>"@ + base + "/</loc></url>\n"@ + sitemap_entries(posts, base)
        + "</urlset>"@
}

/// Renders the sitemap for `posts` under `config`: exactly
/// [`sitemap_spec`], and it never fails.
pub fn generate_sitemap(posts: &Vec<Post>, config: &Config) -> (r: Result<String, BuildError>)
    ensures
        r matches Ok(s) && s@ == sitemap_spec(posts@.map_values(|p: Post| p@), config@),
{
    let ghost views = posts@.map_values(|p: Post| p@);
    let base = trim_trailing_slashes(config.base_url.as_str());
    let ghost b = base@;
    let mut xml = String::from_str(
        "<?xml version=\"1.0\" encoding=\"UTF-8\"?>\n<urlset xmlns=\"http://www.sitemaps.org/schemas/sitemap/0.9\">\n",
    );
    xml.append("  <url><loc>");
    xml.append(base.as_str());
    xml.append("/</loc></url>\n");
    let ghost head = xml@;
    proof {
        assert(sitemap_entries(views.take(0int), b) == Seq::<char>::empty());
        assert(xml@ =~= head + sitemap_entries(views.take(0int), b));
    }
    let mut i: usize = 0;
    while i < posts.len()
        invariant
            i <= posts.len(),
            views == posts@.map_values(|p: Post| p@),
            b == base@,
            xml@ == head + sitemap_entries(views.take(i as int), b),
        decreases posts.len() - i,
    {
        xml.append("  <url><loc>");
        xml.append(base.as_str());
        xml.append("/posts/");
        xml.append(posts[i].meta.slug.as_str());
        xml.append("/</loc></url>\n");
        proof {
            assert(views.take(i as int + 1).drop_last() =~= views.take(i as int));
            assert(views.take(i as int + 1).last() == views[i as int]);
            assert(views[i as int].meta.slug == posts@[i as int]@.meta.slug);
            assert(xml@ =~= head + sitemap_entries(views.take(i as int + 1), b));
        }
        i += 1;
    }
    xml.append("</urlset>");
    proof {
        assert(views.take(posts@.len() as int) =~= views);
        assert(xml@ =~= sitemap_spec(views, config@));
    }
    Ok(xml)
}

/// One RSS `<item>` for a post: title, link, guid and the raw date
/// string, verbatim.
pub open spec fn rss_item(base: Seq<char>, p: PostView) -> Seq<char> {
    "  <item>\n    <title>"@ + p.meta.title + "</title>\n    <link>"@ + base + "/posts/"@
        + p.meta.slug + "/</link>\n    <guid>"@ + base + "/posts/"@ + p.meta.slug
        + "/</guid>\n    <pubDate>"@ + p.meta.date + "</pubDate>\n  </item>\n"@
}

/// The RSS items of all posts, in post order.
pub open spec fn rss_items(posts: Seq<PostView>, base: Seq<char>) -> Seq<char>
    decreases posts.len(),
{
    if posts.len() == 0 {
        Seq::empty()
    } else {
        rss_items(posts.drop_last(), base) + rss_item(base, posts.last())
    }
}

/// The channel description: the configured one, or empty when none is
/// configured.
pub open spec fn rss_description(config: ConfigView) -> Seq<char> {
    match config.description {
        Some(d) => d,
        None => Seq::empty(),
    }
}

/// The complete RSS document: channel title, link and description, then
/// one item per post.
pub open spec fn rss_spec(posts: Seq<PostView>, config: ConfigView) -> Seq<char> {
    let base = trim_slashes(config.base_url);
    "<?xml version=\"1.0\" encoding=\"UTF-8\" ?>\n<rss version=\"2.0\">\n<channel>\n"@
        + "  <title>"@ + config.title + "</title>\n"@ + "  <link>"@ + base + "</link>\n"@
        + "  <description>"@ + rss_description(config) + "</description>\n"@ + rss_items(
        posts,
        base,
    ) + "</channel>\n</rss>"@
}

/// Renders the RSS feed for `posts` under `config`: exactly
/// [`rss_spec`], and it never fails.
pub fn generate_rss(posts: &Vec<Post>, config: &Config) -> (r: Result<String, BuildError>)
    ensures
        r matches Ok(s) && s@ == rss_spec(posts@.map_values(|p: Post| p@), config@),
{
    let ghost views = posts@.map_values(|p: Post| p@);
    let base = trim_trailing_slashes(config.base_url.as_str());
    let ghost b = base@;
    let mut rss = String::from_str(
        "<?xml version=\"1.0\" encoding=\"UTF-8\" ?>\n<rss version=\"2.0\">\n<channel>\n",
    );
    rss.append("  <title>");
    rss.append(config.title.as_str());
    rss.append("</title>\n");
    rss.append("  <link>");
    rss.append(base.as_str());
    rss.append("</link>\n");
    rss.append("  <description>");
    match &config.description {
        Some(d) => rss.append(d.as_str()),
        None => (),
    }
    rss.append("</description>\n");
    let ghost head = rss@;
    proof {
        assert(rss@ =~= head + rss_items(views.take(0int), b));
    }
    let mut i: usize = 0;
    while i < posts.len()
        invariant
            i <= posts.len(),
            views == posts@.map_values(|p: Post| p@),
            b == base@,
            rss@ == head + rss_items(views.take(i as int), b),
        decreases posts.len() - i,
    {
        rss.append("  <item>\n    <title>");
        rss.append(posts[i].meta.title.as_str());
        rss.append("</title>\n    <link>");
        rss.append(base.as_str());
        rss.append("/posts/");
        rss.append(posts[i].meta.slug.as_str());
        rss.append("/</link>\n    <guid>");
        rss.append(base.as_str());
        rss.append("/posts/");
        rss.append(posts[i].meta.slug.as_str());
        rss.append("/</guid>\n    <pubDate>");
        rss.append(posts[i].meta.date.as_str());
        rss.append("</pubDate>\n  </item>\n");
        proof {
            assert(views.take(i as int + 1).drop_last() =~= views.take(i as int));
            assert(views.take(i as int + 1).last() == views[i as int]);
            assert(views[i as int] == posts@[i as int]@);
            assert(rss@ =~= head + rss_items(views.take(i as int + 1), b));
        }
        i += 1;
    }
    rss.append("</channel>\n</rss>");
    proof {
        assert(views.take(posts@.len() as int) =~= views);
        assert(rss@ =~= rss_spec(views, config@));
    }
    Ok(rss)
}

/// The lower-case hexadecimal digit for `d`.
pub open spec fn hex_digit(d: int) -> char {
    if d == 0 {
        '0'
    } else if d == 1 {
        '1'
    } else if d == 2 {
        '2'
    } else if d == 3 {
        '3'
    } else if d == 4 {
        '4'
    } else if d == 5 {
        '5'
    } else if d == 6 {
        '6'
    } else if d == 7 {
        '7'
    } else if d == 8 {
        '8'
    } else if d == 9 {
        '9'
    } else if d == 10 {
        'a'
    } else if d == 11 {
        'b'
    } else if d == 12 {
        'c'
    } else if d == 13 {
        'd'
    } else if d == 14 {
        'e'
    } else {
        'f'
    }
}

/// How one character is written inside a JSON string literal: quotes and
/// backslashes escaped, the common control characters by their short
/// escapes, the remaining control characters as `\u00` plus two hex
/// digits, everything else verbatim.
pub open spec fn escape_char(c: char) -> Seq<char> {
    if c == '"' {
        seq!['\\', '"']
    } else if c == '\\' {
        seq!['\\', '\\']
    } else if c == '\n' {
        seq!['\\', 'n']
    } else if c == '\r' {
        seq!['\\', 'r']
    } else if c == '\t' {
        seq!['\\', 't']
    } else if (c as u32) < 32 {
        seq!['\\', 'u', '0', '0', hex_digit((c as u32 / 16) as int), hex_digit(
            (c as u32 % 16) as int,
        )]
    } else {
        seq![c]
    }
}

/// `s` with every character escaped for a JSON string literal.
pub open spec fn json_escaped(s: Seq<char>) -> Seq<char>
    decreases s.len(),
{
    if s.len() == 0 {
        Seq::empty()
    } else {
        json_escaped(s.drop_last()) + escape_char(s.last())
    }
}

/// A JSON string literal holding `s`.
pub open spec fn json_string(s: Seq<char>) -> Seq<char> {
    seq!['"'] + json_escaped(s) + seq!['"']
}

/// One search-index record: title, slug and content of a post as a JSON
/// object.
pub open spec fn search_entry(p: PostView) -> Seq<char> {
    "{\"title\":"@ + json_string(p.meta.title) + ",\"slug\":"@ + json_string(p.meta.slug)
        + ",\"content\":"@ + json_string(p.content) + "}"@
}

/// All search-index records, comma-separated, in post order.
pub open spec fn search_entries(posts: Seq<PostView>) -> Seq<char>
    decreases posts.len(),
{
    if posts.len() == 0 {
        Seq::empty()
    } else if posts.len() == 1 {
        search_entry(posts[0])
    } else {
        search_entries(posts.drop_last()) + seq![','] + search_entry(posts.last())
    }
}

/// The complete search index: a JSON array of one record per post.
pub open spec fn search_index_spec(posts: Seq<PostView>) -> Seq<char> {
    seq!['['] + search_entries(posts) + seq![']']
}

/// The hexadecimal digit character for `d`.
fn hex_digit_exec(d: u32) -> (c: char)
    requires
        d < 16,
    ensures
        c == hex_digit(d as int),
{
    if d == 0 {
        '0'
    } else if d == 1 {
        '1'
    } else if d == 2 {
        '2'
    } else if d == 3 {
        '3'
    } else if d == 4 {
        '4'
    } else if d == 5 {
        '5'
    } else if d == 6 {
        '6'
    } else if d == 7 {
        '7'
    } else if d == 8 {
        '8'
    } else if d == 9 {
        '9'
    } else if d == 10 {
        'a'
    } else if d == 11 {
        'b'
    } else if d == 12 {
        'c'
    } else if d == 13 {
        'd'
    } else if d == 14 {
        'e'
    } else {
        'f'
    }
}

/// Appends `s`, escaped for a JSON string literal, to `out`.
fn append_json_escaped(out: &mut String, s: &str)
    ensures
        final(out)@ == old(out)@ + json_escaped(s@),
{
    let n = s.unicode_len();
    let mut i: usize = 0;
    proof {
        assert(out@ =~= old(out)@ + json_escaped(s@.take(0int)));
    }
    while i < n
        invariant
            i <= n,
            n == s@.len(),
            out@ == old(out)@ + json_escaped(s@.take(i as int)),
        decreases n - i,
    {
        let c = s.get_char(i);
        if c == '"' {
            push_char(out, '\\');
            push_char(out, '"');
        } else if c == '\\' {
            push_char(out, '\\');
            push_char(out, '\\');
        } else if c == '\n' {
            push_char(out, '\\');
            push_char(out, 'n');
        } else if c == '\r' {
            push_char(out, '\\');
            push_char(out, 'r');
        } else if c == '\t' {
            push_char(out, '\\');
            push_char(out, 't');
        } else if (c as u32) < 32 {
            push_char(out, '\\');
            push_char(out, 'u');
            push_char(out, '0');
            push_char(out, '0');
            push_char(out, hex_digit_exec((c as u32) / 16));
            push_char(out, hex_digit_exec((c as u32) % 16));
        } else {
            push_char(out, c);
        }
        proof {
            assert(s@.take(i as int + 1).drop_last() =~= s@.take(i as int));
            assert(s@.take(i as int + 1).last() == s@[i as int]);
            assert(out@ =~= old(out)@ + json_escaped(s@.take(i as int + 1)));
        }
        i += 1;
    }
    proof {
        assert(s@.take(n as int) =~= s@);
    }
}

/// Appends a JSON string literal holding `s` to `out`.
fn append_json_string(out: &mut String, s: &str)
    ensures
        final(out)@ == old(out)@ + json_string(s@),
{
    push_char(out, '"');
    append_json_escaped(out, s);
    push_char(out, '"');
    proof {
        assert(out@ =~= old(out)@ + json_string(s@));
    }
}

/// Renders the client-side search index for `posts`: exactly
/// [`search_index_spec`], a JSON array with one record of title, slug
/// and content per post. It never fails.
pub fn generate_search_index(posts: &Vec<Post>) -> (r: Result<String, BuildError>)
    ensures
        r matches Ok(s) && s@ == search_index_spec(posts@.map_values(|p: Post| p@)),
{
    let ghost views = posts@.map_values(|p: Post| p@);
    let mut out = String::new();
    push_char(&mut out, '[');
    let ghost head = out@;
    proof {
        assert(out@ =~= head + search_entries(views.take(0int)));
    }
    let mut i: usize = 0;
    while i < posts.len()
        invariant
            i <= posts.len(),
            views == posts@.map_values(|p: Post| p@),
            out@ == head + search_entries(views.take(i as int)),
        decreases posts.len() - i,
    {
        if i > 0 {
            push_char(&mut out, ',');
        }
        out.append("{\"title\":");
        append_json_string(&mut out, posts[i].meta.title.as_str());
        out.append(",\"slug\":");
        append_json_string(&mut out, posts[i].meta.slug.as_str());
        out.append(",\"content\":");
        append_json_string(&mut out, posts[i].content.as_str());
        push_char(&mut out, '}');
        proof {
            reveal_strlit("}");
            assert("}"@ =~= seq!['}']);
            assert(views.take(i as int + 1).drop_last() =~= views.take(i as int));
            assert(views.take(i as int + 1).last() == views[i as int]);
            assert(views[i as int] == posts@[i as int]@);
            assert(search_entry(views[i as int]) =~= "{\"title\":"@ + json_string(
                views[i as int].meta.title,
            ) + ",\"slug\":"@ + json_string(views[i as int].meta.slug) + ",\"content\":"@
                + json_string(views[i as int].content) + "}"@);
            assert(out@ =~= head + search_entries(views.take(i as int + 1)));
        }
        i += 1;
    }
    push_char(&mut out, ']');
    proof {
        assert(views.take(posts@.len() as int) =~= views);
        assert(out@ =~= search_index_spec(views));
    }
    Ok(out)
}

} // verus!
