use crate::domain::{Config, ConfigView, Post, PostMeta, PostMetaView, PostView};
use crate::errors::BuildError;
use crate::pagination::Paginator;
use vstd::prelude::*;
use vstd::string::StringExecFns;

verus! {

#[verifier::external_type_specification]
#[verifier::external_body]
pub struct ExTera(tera::Tera);

#[verifier::external_type_specification]
#[verifier::external_body]
pub struct ExTeraContext(tera::Context);

#[verifier::external_type_specification]
#[verifier::external_body]
pub struct ExTeraValue(tera::Value);

#[verifier::external_type_specification]
#[verifier::external_body]
pub struct ExTeraError(tera::Error);

/// A template-data value: what one entry of a rendering context holds.
pub enum Jv {
    Null,
    Num(nat),
    Str(Seq<char>),
    Arr(Seq<Jv>),
    Obj(Map<Seq<char>, Jv>),
}

/// What a `tera::Value` holds, as a [`Jv`].
pub uninterp spec fn val_model(v: tera::Value) -> Jv;

/// The templates a `tera::Tera` engine holds: name to template text.
pub uninterp spec fn tera_templates(t: tera::Tera) -> Map<Seq<char>, Seq<char>>;

/// The entries a `tera::Context` holds: key to value.
pub uninterp spec fn ctx_entries(c: tera::Context) -> Map<Seq<char>, Jv>;

/// Whether adding a template under a name succeeds against the templates
/// an engine already holds. Under this module's fixed engine
/// configuration (default delimiters, the built-in filters and
/// functions), parsing and the inheritance check depend on the held
/// template texts, the new name and the new text alone.
pub uninterp spec fn add_ok(
    templates: Map<Seq<char>, Seq<char>>,
    name: Seq<char>,
    content: Seq<char>,
) -> bool;

/// What rendering one engine instance with one context instance through
/// the named template yields: the output bytes on success, nothing on
/// failure. This is a function of the two instances, not of the template
/// texts and context entries alone: a context's object values hold hash
/// maps whose iteration order is fixed per map instance but arbitrary
/// across instances, and a template that walks an object's entries
/// observes that order.
pub uninterp spec fn render_outcome(t: tera::Tera, name: Seq<char>, c: tera::Context) -> Option<
    Seq<char>,
>;

/// A template map with nothing in it.
pub open spec fn no_templates() -> Map<Seq<char>, Seq<char>> {
    Map::empty()
}

/// A context map with nothing in it.
pub open spec fn no_entries() -> Map<Seq<char>, Jv> {
    Map::empty()
}

/// Relies on `tera::Tera::new` and `tera::Tera::autoescape_on`: a fresh
/// engine holds no templates, and an empty suffix list disables
/// auto-escaping. Every engine this module handles is configured this
/// way once, before any template is added.
#[verifier::external_body]
fn tera_new() -> (engine: tera::Tera)
    ensures
        tera_templates(engine) == no_templates(),
{
    let mut t = tera::Tera::new();
    t.autoescape_on(Vec::<&str>::new());
    t
}

/// Relies on `tera::Tera::add_raw_template`: adding succeeds exactly
/// when the new text parses and the enlarged set passes the inheritance
/// check, both functions of the held texts, the name and the new text;
/// on success the template is inserted under its name (replacing any
/// previous one); on failure the engine's templates are restored
/// unchanged.
#[verifier::external_body]
fn tera_add_raw(t: &mut tera::Tera, name: &str, content: &str) -> (r: Result<(), tera::Error>)
    ensures
        r is Ok <==> add_ok(tera_templates(*old(t)), name@, content@),
        r is Ok ==> tera_templates(*final(t)) == tera_templates(*old(t)).insert(name@, content@),
        r is Err ==> tera_templates(*final(t)) == tera_templates(*old(t)),
{
    t.add_raw_template(name, content)
}

/// Relies on `tera::Tera::render`: the outcome (success and bytes) is
/// fixed by the engine and context instances (see [`render_outcome`];
/// the engine registers no time- or randomness-dependent functions), and
/// naming a template the engine does not hold fails.
#[verifier::external_body]
fn tera_render(t: &tera::Tera, name: &str, c: &tera::Context) -> (r: Result<String, tera::Error>)
    ensures
        r matches Ok(s) ==> render_outcome(*t, name@, *c) == Some(s@),
        r is Err ==> render_outcome(*t, name@, *c) is None,
        !tera_templates(*t).contains_key(name@) ==> r is Err,
{
    t.render(name, c)
}

/// Relies on `tera::Context::new`: a fresh context holds no entries.
#[verifier::external_body]
fn ctx_new() -> (ctx: tera::Context)
    ensures
        ctx_entries(ctx) == no_entries(),
{
    tera::Context::new()
}

/// Relies on `tera::Context::insert_value`: adds the entry, replacing
/// any previous value under the key.
#[verifier::external_body]
fn ctx_insert(c: &mut tera::Context, key: &str, v: tera::Value)
    ensures
        ctx_entries(*final(c)) == ctx_entries(*old(c)).insert(key@, val_model(v)),
{
    c.insert_value(key.to_owned(), v);
}

/// Relies on `tera::Value::none`: the unit value, as an absent optional
/// field serializes.
#[verifier::external_body]
fn val_null() -> (v: tera::Value)
    ensures
        val_model(v) == Jv::Null,
{
    tera::Value::none()
}

/// Relies on `From<u64> for tera::Value`: the numeric value.
#[verifier::external_body]
fn val_u64(n: u64) -> (v: tera::Value)
    ensures
        val_model(v) == Jv::Num(n as nat),
{
    tera::Value::from(n)
}

/// Relies on `From<&str> for tera::Value`: the string value.
#[verifier::external_body]
fn val_str(s: &str) -> (v: tera::Value)
    ensures
        val_model(v) == Jv::Str(s@),
{
    tera::Value::from(s)
}

/// Relies on `From<Vec<tera::Value>> for tera::Value`: the array of the
/// given values, in order.
#[verifier::external_body]
fn val_arr(items: Vec<tera::Value>) -> (v: tera::Value)
    ensures
        val_model(v) == Jv::Arr(items@.map_values(|x: tera::Value| val_model(x))),
{
    tera::Value::from(items)
}

/// The object that a pair list builds: later pairs replace earlier ones
/// under the same key, as map insertion does.
pub open spec fn obj_of_pairs(pairs: Seq<(String, tera::Value)>) -> Map<Seq<char>, Jv>
    decreases pairs.len(),
{
    if pairs.len() == 0 {
        Map::empty()
    } else {
        obj_of_pairs(pairs.drop_last()).insert(pairs.last().0@, val_model(pairs.last().1))
    }
}

/// Relies on `tera::Map::insert` (a map keyed by strings) and
/// `From<tera::Map> for tera::Value`: the object holding exactly the
/// given pairs, later pairs replacing earlier ones under the same key.
#[verifier::external_body]
fn val_obj(pairs: Vec<(String, tera::Value)>) -> (v: tera::Value)
    ensures
        val_model(v) == Jv::Obj(obj_of_pairs(pairs@)),
{
    let mut m = tera::Map::new();
    for (k, val) in pairs {
        m.insert(k.into(), val);
    }
    tera::Value::from(m)
}

/// The template-data value of an optional string list: an array of
/// strings, or the unit value when absent.
pub open spec fn opt_list_jv(l: Option<Seq<Seq<char>>>) -> Jv {
    match l {
        Some(items) => Jv::Arr(items.map_values(|s: Seq<char>| Jv::Str(s))),
        None => Jv::Null,
    }
}

/// The template-data value of a post's metadata.
pub open spec fn meta_jv(m: PostMetaView) -> Jv {
    Jv::Obj(
        Map::<Seq<char>, Jv>::empty().insert("title"@, Jv::Str(m.title)).insert(
            "date"@,
            Jv::Str(m.date),
        ).insert("slug"@, Jv::Str(m.slug)).insert("tags"@, opt_list_jv(m.tags)).insert(
            "categories"@,
            opt_list_jv(m.categories),
        ),
    )
}

/// The template-data value of a post: its metadata and its rendered
/// HTML content.
pub open spec fn post_jv(p: PostView) -> Jv {
    Jv::Obj(
        Map::<Seq<char>, Jv>::empty().insert("meta"@, meta_jv(p.meta)).insert(
            "content"@,
            Jv::Str(p.content),
        ),
    )
}

/// The template-data value of the site configuration.
pub open spec fn config_jv(c: ConfigView) -> Jv {
    Jv::Obj(
        Map::<Seq<char>, Jv>::empty().insert("title"@, Jv::Str(c.title)).insert(
            "base_url"@,
            Jv::Str(c.base_url),
        ).insert(
            "description"@,
            match c.description {
                Some(d) => Jv::Str(d),
                None => Jv::Null,
            },
        ).insert(
            "posts_per_page"@,
            match c.posts_per_page {
                Some(n) => Jv::Num(n as nat),
                None => Jv::Null,
            },
        ),
    )
}

/// The template-data values of a post list, in order.
pub open spec fn posts_jv(posts: Seq<PostView>) -> Jv {
    Jv::Arr(posts.map_values(|p: PostView| post_jv(p)))
}

/// Builds the value of an optional string list.
fn opt_list_value(l: &Option<Vec<String>>) -> (v: tera::Value)
    ensures
        val_model(v) == opt_list_jv(crate::domain::opt_strings_view(*l)),
{
    match l {
        None => val_null(),
        Some(items) => {
            let mut vals: Vec<tera::Value> = Vec::new();
            let mut i: usize = 0;
            while i < items.len()
                invariant
                    i <= items.len(),
                    vals@.len() == i,
                    forall|t: int|
                        0 <= t < i ==> val_model(#[trigger] vals@[t]) == Jv::Str(items@[t]@),
                decreases items.len() - i,
            {
                vals.push(val_str(items[i].as_str()));
                i += 1;
            }
            let v = val_arr(vals);
            proof {
                assert(vals@.map_values(|x: tera::Value| val_model(x)) =~= items@.map_values(
                    |s: String| s@,
                ).map_values(|s: Seq<char>| Jv::Str(s)));
            }
            v
        },
    }
}

/// Builds the value of a post's metadata.
fn meta_value(m: &PostMeta) -> (v: tera::Value)
    ensures
        val_model(v) == meta_jv(m@),
{
    let mut pairs: Vec<(String, tera::Value)> = Vec::new();
    pairs.push((String::from_str("title"), val_str(m.title.as_str())));
    pairs.push((String::from_str("date"), val_str(m.date.as_str())));
    pairs.push((String::from_str("slug"), val_str(m.slug.as_str())));
    pairs.push((String::from_str("tags"), opt_list_value(&m.tags)));
    pairs.push((String::from_str("categories"), opt_list_value(&m.categories)));
    let ghost ps = pairs@;
    let v = val_obj(pairs);
    proof {
        let s4 = ps.drop_last();
        let s3 = s4.drop_last();
        let s2 = s3.drop_last();
        let s1 = s2.drop_last();
        let s0 = s1.drop_last();
        assert(s0 =~= Seq::<(String, tera::Value)>::empty());
        assert(s1.last() == ps[0]);
        assert(s2.last() == ps[1]);
        assert(s3.last() == ps[2]);
        assert(s4.last() == ps[3]);
        assert(ps.last() == ps[4]);
        assert(obj_of_pairs(s0) == Map::<Seq<char>, Jv>::empty());
        assert(obj_of_pairs(s1) == obj_of_pairs(s0).insert(ps[0].0@, val_model(ps[0].1)));
        assert(obj_of_pairs(s2) == obj_of_pairs(s1).insert(ps[1].0@, val_model(ps[1].1)));
        assert(obj_of_pairs(s3) == obj_of_pairs(s2).insert(ps[2].0@, val_model(ps[2].1)));
        assert(obj_of_pairs(s4) == obj_of_pairs(s3).insert(ps[3].0@, val_model(ps[3].1)));
        assert(obj_of_pairs(ps) == obj_of_pairs(s4).insert(ps[4].0@, val_model(ps[4].1)));
        assert(val_model(v) == meta_jv(m@));
    }
    v
}

/// Builds the value of a post.
fn post_value(p: &Post) -> (v: tera::Value)
    ensures
        val_model(v) == post_jv(p@),
{
    let mut pairs: Vec<(String, tera::Value)> = Vec::new();
    pairs.push((String::from_str("meta"), meta_value(&p.meta)));
    pairs.push((String::from_str("content"), val_str(p.content.as_str())));
    let ghost ps = pairs@;
    let v = val_obj(pairs);
    proof {
        let s1 = ps.drop_last();
        let s0 = s1.drop_last();
        assert(s0 =~= Seq::<(String, tera::Value)>::empty());
        assert(s1.last() == ps[0]);
        assert(ps.last() == ps[1]);
        assert(obj_of_pairs(s0) == Map::<Seq<char>, Jv>::empty());
        assert(obj_of_pairs(s1) == obj_of_pairs(s0).insert(ps[0].0@, val_model(ps[0].1)));
        assert(obj_of_pairs(ps) == obj_of_pairs(s1).insert(ps[1].0@, val_model(ps[1].1)));
        assert(val_model(v) == post_jv(p@));
    }
    v
}

/// Builds the value of the site configuration.
fn config_value(c: &Config) -> (v: tera::Value)
    ensures
        val_model(v) == config_jv(c@),
{
    let mut pairs: Vec<(String, tera::Value)> = Vec::new();
    pairs.push((String::from_str("title"), val_str(c.title.as_str())));
    pairs.push((String::from_str("base_url"), val_str(c.base_url.as_str())));
    let desc = match &c.description {
        Some(d) => val_str(d.as_str()),
        None => val_null(),
    };
    pairs.push((String::from_str("description"), desc));
    let ppp = match &c.posts_per_page {
        Some(n) => val_u64(*n as u64),
        None => val_null(),
    };
    pairs.push((String::from_str("posts_per_page"), ppp));
    let ghost ps = pairs@;
    let v = val_obj(pairs);
    proof {
        let s3 = ps.drop_last();
        let s2 = s3.drop_last();
        let s1 = s2.drop_last();
        let s0 = s1.drop_last();
        assert(s0 =~= Seq::<(String, tera::Value)>::empty());
        assert(s1.last() == ps[0]);
        assert(s2.last() == ps[1]);
        assert(s3.last() == ps[2]);
        assert(ps.last() == ps[3]);
        assert(obj_of_pairs(s0) == Map::<Seq<char>, Jv>::empty());
        assert(obj_of_pairs(s1) == obj_of_pairs(s0).insert(ps[0].0@, val_model(ps[0].1)));
        assert(obj_of_pairs(s2) == obj_of_pairs(s1).insert(ps[1].0@, val_model(ps[1].1)));
        assert(obj_of_pairs(s3) == obj_of_pairs(s2).insert(ps[2].0@, val_model(ps[2].1)));
        assert(obj_of_pairs(ps) == obj_of_pairs(s3).insert(ps[3].0@, val_model(ps[3].1)));
        assert(val_model(v) == config_jv(c@));
    }
    v
}

/// Builds the array value of a post list.
fn posts_value(posts: &Vec<Post>) -> (v: tera::Value)
    ensures
        val_model(v) == posts_jv(posts@.map_values(|p: Post| p@)),
{
    let mut vals: Vec<tera::Value> = Vec::new();
    let mut i: usize = 0;
    while i < posts.len()
        invariant
            i <= posts.len(),
            vals@.len() == i,
            forall|t: int| 0 <= t < i ==> val_model(#[trigger] vals@[t]) == post_jv(posts@[t]@),
        decreases posts.len() - i,
    {
        vals.push(post_value(&posts[i]));
        i += 1;
    }
    let v = val_arr(vals);
    proof {
        assert(vals@.map_values(|x: tera::Value| val_model(x)) =~= posts@.map_values(
            |p: Post| p@,
        ).map_values(|p: PostView| post_jv(p)));
    }
    v
}

/// The map of template names to texts that a pair list builds: later
/// pairs replace earlier ones under the same name.
pub open spec fn template_map(ts: Seq<(String, String)>) -> Map<Seq<char>, Seq<char>>
    decreases ts.len(),
{
    if ts.len() == 0 {
        Map::empty()
    } else {
        template_map(ts.drop_last()).insert(ts.last().0@, ts.last().1@)
    }
}

/// Every template of the list adds cleanly, each against the set the
/// earlier ones built.
pub open spec fn adds_cleanly(ts: Seq<(String, String)>) -> bool
    decreases ts.len(),
{
    if ts.len() == 0 {
        true
    } else {
        adds_cleanly(ts.drop_last()) && add_ok(
            template_map(ts.drop_last()),
            ts.last().0@,
            ts.last().1@,
        )
    }
}

/// A clean run accepts every prefix, and the next template after any
/// prefix adds cleanly against it.
proof fn lemma_adds_cleanly_prefix(ts: Seq<(String, String)>, i: int)
    requires
        0 <= i < ts.len(),
        adds_cleanly(ts),
    ensures
        adds_cleanly(ts.take(i)),
        add_ok(template_map(ts.take(i)), ts[i].0@, ts[i].1@),
    decreases ts.len(),
{
    if i == ts.len() - 1 {
        assert(ts.drop_last() =~= ts.take(i));
    } else {
        assert(ts.drop_last().take(i) =~= ts.take(i));
        assert(ts.drop_last()[i] == ts[i]);
        lemma_adds_cleanly_prefix(ts.drop_last(), i);
    }
}

/// The rendering context for one post's detail page.
pub open spec fn post_ctx(p: PostView, c: ConfigView) -> Map<Seq<char>, Jv> {
    Map::<Seq<char>, Jv>::empty().insert("post"@, post_jv(p)).insert("config"@, config_jv(c))
}

/// The rendering context for the index page over a flat post list.
pub open spec fn index_ctx(posts: Seq<PostView>, c: ConfigView) -> Map<Seq<char>, Jv> {
    Map::<Seq<char>, Jv>::empty().insert("posts"@, posts_jv(posts)).insert(
        "config"@,
        config_jv(c),
    )
}

/// The template-data value of one page of posts.
pub open spec fn paginator_jv(current_page: nat, total_pages: nat, items: Seq<PostView>) -> Jv {
    Jv::Obj(
        Map::<Seq<char>, Jv>::empty().insert("current_page"@, Jv::Num(current_page)).insert(
            "total_pages"@,
            Jv::Num(total_pages),
        ).insert("items"@, posts_jv(items)),
    )
}

/// The rendering context for the index page over one page of posts.
pub open spec fn paginated_ctx(
    current_page: nat,
    total_pages: nat,
    items: Seq<PostView>,
    c: ConfigView,
) -> Map<Seq<char>, Jv> {
    Map::<Seq<char>, Jv>::empty().insert(
        "paginator"@,
        paginator_jv(current_page, total_pages, items),
    ).insert("config"@, config_jv(c))
}

/// The rendering context for one taxonomy page.
pub open spec fn taxonomy_ctx(name: Seq<char>, posts: Seq<PostView>, c: ConfigView) -> Map<
    Seq<char>,
    Jv,
> {
    Map::<Seq<char>, Jv>::empty().insert("name"@, Jv::Str(name)).insert(
        "posts"@,
        posts_jv(posts),
    ).insert("config"@, config_jv(c))
}

/// Builds the context for one post's detail page: exactly the bindings
/// of [`post_ctx`] — the post under `post`, the configuration under
/// `config`.
pub fn build_post_context(post: &Post, config: &Config) -> (ctx: tera::Context)
    ensures
        ctx_entries(ctx) == post_ctx(post@, config@),
{
    let mut ctx = ctx_new();
    ctx_insert(&mut ctx, "post", post_value(post));
    ctx_insert(&mut ctx, "config", config_value(config));
    ctx
}

/// Builds the context for the index page over a flat post list: exactly
/// the bindings of [`index_ctx`].
pub fn build_index_context(posts: &Vec<Post>, config: &Config) -> (ctx: tera::Context)
    ensures
        ctx_entries(ctx) == index_ctx(posts@.map_values(|p: Post| p@), config@),
{
    let mut ctx = ctx_new();
    ctx_insert(&mut ctx, "posts", posts_value(posts));
    ctx_insert(&mut ctx, "config", config_value(config));
    ctx
}

/// Builds the context for the index page over one page of posts:
/// exactly the bindings of [`paginated_ctx`].
pub fn build_paginated_context(paginator: &Paginator<Post>, config: &Config) -> (ctx: tera::Context)
    ensures
        ctx_entries(ctx) == paginated_ctx(
            paginator.current_page as nat,
            paginator.total_pages as nat,
            paginator.items@.map_values(|p: Post| p@),
            config@,
        ),
{
    let mut pairs: Vec<(String, tera::Value)> = Vec::new();
    pairs.push((String::from_str("current_page"), val_u64(paginator.current_page as u64)));
    pairs.push((String::from_str("total_pages"), val_u64(paginator.total_pages as u64)));
    pairs.push((String::from_str("items"), posts_value(&paginator.items)));
    let ghost ps = pairs@;
    let pv = val_obj(pairs);
    proof {
        let s2 = ps.drop_last();
        let s1 = s2.drop_last();
        let s0 = s1.drop_last();
        assert(s0 =~= Seq::<(String, tera::Value)>::empty());
        assert(s1.last() == ps[0]);
        assert(s2.last() == ps[1]);
        assert(ps.last() == ps[2]);
        assert(obj_of_pairs(s0) == Map::<Seq<char>, Jv>::empty());
        assert(obj_of_pairs(s1) == obj_of_pairs(s0).insert(ps[0].0@, val_model(ps[0].1)));
        assert(obj_of_pairs(s2) == obj_of_pairs(s1).insert(ps[1].0@, val_model(ps[1].1)));
        assert(obj_of_pairs(ps) == obj_of_pairs(s2).insert(ps[2].0@, val_model(ps[2].1)));
        assert(val_model(pv) == paginator_jv(
            paginator.current_page as nat,
            paginator.total_pages as nat,
            paginator.items@.map_values(|p: Post| p@),
        ));
    }
    let mut ctx = ctx_new();
    ctx_insert(&mut ctx, "paginator", pv);
    ctx_insert(&mut ctx, "config", config_value(config));
    ctx
}

/// Builds the context for one taxonomy page: exactly the bindings of
/// [`taxonomy_ctx`].
pub fn build_taxonomy_context(name: &str, posts: &Vec<Post>, config: &Config) -> (ctx:
    tera::Context)
    ensures
        ctx_entries(ctx) == taxonomy_ctx(name@, posts@.map_values(|p: Post| p@), config@),
{
    let mut ctx = ctx_new();
    ctx_insert(&mut ctx, "name", val_str(name));
    ctx_insert(&mut ctx, "posts", posts_value(posts));
    ctx_insert(&mut ctx, "config", config_value(config));
    ctx
}

/// The template renderer: a tera engine loaded once per build with the
/// theme's templates, auto-escaping disabled, and shared read-only by
/// every rendering call of that build.
pub struct Renderer {
    tera: tera::Tera,
}

impl Renderer {
    /// The templates this renderer holds: name to template text.
    pub closed spec fn templates(&self) -> Map<Seq<char>, Seq<char>> {
        tera_templates(self.tera)
    }

    /// Builds a renderer from named template texts. Construction
    /// succeeds exactly when every template adds cleanly, in order (a
    /// syntax error or a broken inheritance in any one fails it); on
    /// success the renderer holds exactly the given templates, later
    /// pairs replacing earlier ones under the same name.
    pub fn new(templates: &Vec<(String, String)>) -> (r: Result<Renderer, BuildError>)
        ensures
            r is Ok <==> adds_cleanly(templates@),
            r matches Ok(rd) ==> rd.templates() == template_map(templates@),
            r matches Err(e) ==> e is Template,
    {
        let mut engine = tera_new();
        let mut i: usize = 0;
        while i < templates.len()
            invariant
                i <= templates.len(),
                tera_templates(engine) == template_map(templates@.take(i as int)),
                adds_cleanly(templates@.take(i as int)),
            decreases templates.len() - i,
        {
            let added = tera_add_raw(
                &mut engine,
                templates[i].0.as_str(),
                templates[i].1.as_str(),
            );
            proof {
                assert(templates@.take(i as int + 1).drop_last() =~= templates@.take(i as int));
                assert(templates@.take(i as int + 1).last() == templates@[i as int]);
            }
            match added {
                Ok(()) => (),
                Err(_) => {
                    proof {
                        if adds_cleanly(templates@) {
                            lemma_adds_cleanly_prefix(templates@, i as int);
                        }
                    }
                    return Err(BuildError::Template { name: templates[i].0.clone() });
                },
            }
            i += 1;
        }
        proof {
            assert(templates@.take(templates@.len() as int) =~= templates@);
        }
        Ok(Renderer { tera: engine })
    }

    /// Renders one post's detail page through the `post.html` template,
    /// with the bindings of [`build_post_context`]. Naming an absent
    /// template fails; beyond that, success and the output bytes are the
    /// template engine's decision on this engine and context (see
    /// [`render_outcome`]), and a failure is reported as a render error.
    pub fn render_post(&self, post: &Post, config: &Config) -> (r: Result<String, BuildError>)
        ensures
            !self.templates().contains_key("post.html"@) ==> r is Err,
            r matches Err(e) ==> e is Render,
    {
        let ctx = build_post_context(post, config);
        match tera_render(&self.tera, "post.html", &ctx) {
            Ok(s) => Ok(s),
            Err(_) => Err(BuildError::Render { template: String::from_str("post.html") }),
        }
    }

    /// Renders the index page from a flat post sequence through the
    /// `index.html` template, with the bindings of
    /// [`build_index_context`], as [`Renderer::render_post`] does for a
    /// post.
    pub fn render_index(&self, posts: &Vec<Post>, config: &Config) -> (r: Result<
        String,
        BuildError,
    >)
        ensures
            !self.templates().contains_key("index.html"@) ==> r is Err,
            r matches Err(e) ==> e is Render,
    {
        let ctx = build_index_context(posts, config);
        match tera_render(&self.tera, "index.html", &ctx) {
            Ok(s) => Ok(s),
            Err(_) => Err(BuildError::Render { template: String::from_str("index.html") }),
        }
    }

    /// Renders the index page from one page of posts through the
    /// `index.html` template, with the bindings of
    /// [`build_paginated_context`].
    pub fn render_paginated_index(&self, paginator: &Paginator<Post>, config: &Config) -> (r:
        Result<String, BuildError>)
        ensures
            !self.templates().contains_key("index.html"@) ==> r is Err,
            r matches Err(e) ==> e is Render,
    {
        let ctx = build_paginated_context(paginator, config);
        match tera_render(&self.tera, "index.html", &ctx) {
            Ok(s) => Ok(s),
            Err(_) => Err(BuildError::Render { template: String::from_str("index.html") }),
        }
    }

    /// Renders one taxonomy page (a group name and the posts in that
    /// group) through the `taxonomy.html` template, with the bindings of
    /// [`build_taxonomy_context`].
    pub fn render_taxonomy(&self, name: &str, posts: &Vec<Post>, config: &Config) -> (r: Result<
        String,
        BuildError,
    >)
        ensures
            !self.templates().contains_key("taxonomy.html"@) ==> r is Err,
            r matches Err(e) ==> e is Render,
    {
        let ctx = build_taxonomy_context(name, posts, config);
        match tera_render(&self.tera, "taxonomy.html", &ctx) {
            Ok(s) => Ok(s),
            Err(_) => Err(BuildError::Render { template: String::from_str("taxonomy.html") }),
        }
    }
}

} // verus!
