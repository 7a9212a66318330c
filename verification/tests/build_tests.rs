use web_blog::domain::{Config, Post, PostMeta};
use web_blog::engine::plan_build;
use web_blog::errors::BuildError;
use web_blog::pagination::Paginator;
use web_blog::parser::parse_markdown;
use web_blog::render::Renderer;
use web_blog::watch::{BuildCoordinator, Debouncer, ServedSite};

fn post(title: &str, date: &str, slug: &str, content: &str) -> Post {
    Post {
        meta: PostMeta {
            title: title.to_string(),
            date: date.to_string(),
            slug: slug.to_string(),
            tags: None,
            categories: None,
        },
        content: content.to_string(),
    }
}

fn config(title: &str, base_url: &str) -> Config {
    Config {
        title: title.to_string(),
        base_url: base_url.to_string(),
        description: None,
        posts_per_page: None,
    }
}

fn templates(pairs: &[(&str, &str)]) -> Vec<(String, String)> {
    pairs.iter().map(|(n, c)| (n.to_string(), c.to_string())).collect()
}

#[test]
fn test_render_paginated_index() {
    let index_template = "Page {{ paginator.current_page }} of {{ paginator.total_pages }}: \
        {% for post in paginator.items %}{{ post.meta.title }}{% endfor %}";
    let renderer = Renderer::new(&templates(&[("index.html", index_template)]))
        .expect("Failed to create renderer");

    let paginator = Paginator {
        current_page: 1,
        total_pages: 2,
        items: vec![post("P1", "2023", "p1", "")],
    };

    let cfg = config("Blog", "url");

    let output = renderer
        .render_paginated_index(&paginator, &cfg)
        .expect("Failed to render paginated index");
    assert!(output.contains("Page 1 of 2: P1"));
}

#[test]
fn test_render_taxonomy() {
    let taxonomy_template =
        "<h1>Tag: {{ name }}</h1><ul>{% for post in posts %}<li>{{ post.meta.title }}</li>{% endfor %}</ul>";
    let renderer = Renderer::new(&templates(&[("taxonomy.html", taxonomy_template)]))
        .expect("Failed to create renderer");

    let posts = vec![post("Hello World", "2023-01-01", "hello-world", "content")];
    let cfg = config("My Blog", "https://example.com");

    let output = renderer
        .render_taxonomy("rust", &posts, &cfg)
        .expect("Failed to render taxonomy");

    assert!(output.contains("<h1>Tag: rust</h1>"));
    assert!(output.contains("Hello World"));
}

#[test]
fn test_render_post() {
    let post_template = "<!DOCTYPE html>\n<html>\n\
        <head><title>{{ post.meta.title }} - {{ config.title }}</title></head>\n<body>\n\
        <h1>{{ post.meta.title }}</h1>\n\
        <div class=\"content\">{{ post.content }}</div>\n</body>\n</html>\n";
    let renderer = Renderer::new(&templates(&[("post.html", post_template)]))
        .expect("Failed to create renderer");

    let p = post("Hello World", "2023-01-01", "hello-world", "<p>This is content</p>");
    let cfg = config("My Blog", "https://example.com");

    let output = renderer.render_post(&p, &cfg).expect("Failed to render post");

    assert!(output.contains("<title>Hello World - My Blog</title>"));
    assert!(output.contains("<h1>Hello World</h1>"));
    assert!(output.contains("<div class=\"content\"><p>This is content</p></div>"));
}

#[test]
fn test_render_index_flat_list() {
    let index_template =
        "<h1>Index: {{ config.title }}</h1><ul>{% for post in posts %}<li>{{ post.meta.title }}</li>{% endfor %}</ul>";
    let renderer = Renderer::new(&templates(&[("index.html", index_template)]))
        .expect("Failed to create renderer");
    let posts = vec![post("My Post", "2023-01-01", "my-post", "")];
    let output = renderer
        .render_index(&posts, &config("Test Blog", "https://example.com"))
        .expect("Failed to render index");
    assert!(output.contains("Index: Test Blog"));
    assert!(output.contains("My Post"));
}

#[test]
fn test_renderer_rejects_bad_template() {
    let result = Renderer::new(&templates(&[("index.html", "{% for post in %}")]));
    match result {
        Err(BuildError::Template { name }) => assert_eq!(name, "index.html"),
        _ => panic!("a template with a syntax error must fail construction"),
    }
}

#[test]
fn test_render_missing_template_fails() {
    let renderer = Renderer::new(&templates(&[("index.html", "x")])).unwrap();
    let result = renderer.render_post(&post("T", "D", "s", ""), &config("B", "u"));
    assert!(matches!(result, Err(BuildError::Render { .. })));
}

#[test]
fn test_plan_build_end_to_end() {
    let raw = "---\ntitle: Hello Post\ndate: 2023-01-01\nslug: hello\n---\n# Hi\n";
    let p = parse_markdown(raw).expect("post should parse");
    let posts = vec![p];
    let cfg = config("T", "https://x.test");
    let renderer = Renderer::new(&templates(&[
        ("index.html", "<h1>{{ config.title }}</h1>"),
        ("post.html", "<h1>{{ post.meta.title }} - {{ config.title }}</h1>{{ post.content }}"),
    ]))
    .expect("Failed to create renderer");

    let files = plan_build(&renderer, &posts, &cfg).expect("Failed to plan build");

    assert_eq!(files[0].rel_path, "index.html");
    assert_eq!(files[1].rel_path, "sitemap.xml");
    assert_eq!(files[2].rel_path, "rss.xml");
    let page = files
        .iter()
        .find(|f| f.rel_path == "posts/hello/index.html")
        .expect("the post's page must be planned");
    assert!(page.contents.contains("Hello Post"));
    assert!(page.contents.contains("T"));
    assert!(page.contents.contains("<h1>Hi</h1>"));
    assert!(files[1].contents.contains("<loc>https://x.test/posts/hello/</loc>"));
}

#[test]
fn test_plan_build_is_idempotent() {
    let posts = vec![
        post("A", "2023-01-01", "a", "<p>a</p>"),
        post("B", "2023-01-02", "b", "<p>b</p>"),
    ];
    let cfg = config("Blog", "https://example.com");
    let tpl = templates(&[
        ("index.html", "{% for post in posts %}{{ post.meta.title }}{% endfor %}"),
        ("post.html", "{{ post.meta.title }}:{{ post.content }}"),
    ]);
    let r1 = Renderer::new(&tpl).unwrap();
    let r2 = Renderer::new(&tpl).unwrap();
    let first = plan_build(&r1, &posts, &cfg).unwrap();
    let second = plan_build(&r2, &posts, &cfg).unwrap();
    assert_eq!(first.len(), second.len());
    for (f, s) in first.iter().zip(second.iter()) {
        assert_eq!(f.rel_path, s.rel_path);
        assert_eq!(f.contents, s.contents);
    }
}

#[test]
fn test_plan_build_rejects_duplicate_slugs() {
    let posts = vec![post("A", "2023", "same", ""), post("B", "2023", "same", "")];
    let cfg = config("Blog", "https://example.com");
    let renderer = Renderer::new(&templates(&[("index.html", "x"), ("post.html", "y")])).unwrap();
    match plan_build(&renderer, &posts, &cfg) {
        Err(BuildError::DuplicateSlug { slug }) => assert_eq!(slug, "same"),
        _ => panic!("two posts sharing a slug must fail the build"),
    }
}

#[test]
fn test_debounce_burst_fires_once() {
    let mut d = Debouncer::new(500);
    let mut fired: u32 = 0;
    for t in [0u64, 100, 200, 300, 400] {
        d.note_event(t);
        if d.poll(t) {
            fired += 1;
        }
    }
    assert_eq!(fired, 0);
    if d.poll(850) {
        fired += 1;
    }
    if d.poll(900) {
        fired += 1;
    }
    assert_eq!(fired, 1);
}

#[test]
fn test_coordinator_serializes_builds() {
    let mut c = BuildCoordinator::new();
    assert!(c.on_change());
    assert!(!c.on_change());
    assert!(!c.on_change());
    assert!(c.on_build_done());
    assert!(!c.on_build_done());
    assert!(c.on_change());
}

#[test]
fn test_failed_rebuild_leaves_served_site_unchanged() {
    let posts = vec![post("A", "2023", "a", "")];
    let cfg = config("Blog", "https://example.com");
    let renderer = Renderer::new(&templates(&[("index.html", "x"), ("post.html", "y")])).unwrap();
    let files = plan_build(&renderer, &posts, &cfg).unwrap();
    let before: Vec<(String, String)> = files
        .iter()
        .map(|f| (f.rel_path.clone(), f.contents.clone()))
        .collect();
    let mut site = ServedSite::new(files);

    let bad_renderer = Renderer::new(&templates(&[("index.html", "x")])).unwrap();
    let failed = plan_build(&bad_renderer, &posts, &cfg);
    assert!(failed.is_err());
    assert!(!site.apply_build(failed));

    let after: Vec<(String, String)> = site
        .files
        .iter()
        .map(|f| (f.rel_path.clone(), f.contents.clone()))
        .collect();
    assert_eq!(before, after);
}
