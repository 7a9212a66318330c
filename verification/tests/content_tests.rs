use web_blog::content::{is_markdown_name, load_posts_from_sources, FileSource};
use web_blog::domain::PostMeta;
use web_blog::errors::ParseError;
use web_blog::front_matter::{parse_front_matter, serialize_front_matter};
use web_blog::parser::parse_markdown;

#[test]
fn test_parse_markdown_with_frontmatter() {
    let raw_content = "---\ntitle: Hello World\ndate: 2023-10-27\nslug: hello-world\n---\n\
        # Welcome\n\nThis is a test post.\n";

    let expected_meta = PostMeta {
        title: "Hello World".to_string(),
        date: "2023-10-27".to_string(),
        slug: "hello-world".to_string(),
        tags: None,
        categories: None,
    };

    let result = parse_markdown(raw_content).expect("Failed to parse markdown");

    assert_eq!(result.meta, expected_meta);
    assert!(result.content.contains("<h1>Welcome</h1>"));
    assert!(result.content.contains("<p>This is a test post.</p>"));
}

#[test]
fn test_parse_markdown_without_frontmatter_fails() {
    let result = parse_markdown("# Just a heading\n");
    assert_eq!(result.unwrap_err(), ParseError::MissingFrontMatter);
}

#[test]
fn test_parse_markdown_unclosed_frontmatter_fails() {
    let result = parse_markdown("---\ntitle: T\ndate: D\nslug: s\n# Body\n");
    assert_eq!(result.unwrap_err(), ParseError::UnclosedFrontMatter);
}

#[test]
fn test_parse_markdown_malformed_line_fails() {
    let result = parse_markdown("---\ntitle: T\nnot a key\nslug: s\n---\nbody\n");
    assert_eq!(result.unwrap_err(), ParseError::MalformedLine);
}

#[test]
fn test_parse_markdown_duplicate_key_fails() {
    let result = parse_markdown("---\ntitle: T\ntitle: U\nslug: s\n---\nbody\n");
    assert_eq!(result.unwrap_err(), ParseError::DuplicateKey);
}

#[test]
fn test_parse_markdown_missing_field_fails() {
    let result = parse_markdown("---\ntitle: T\ndate: D\n---\nbody\n");
    assert_eq!(result.unwrap_err(), ParseError::MissingField);
}

#[test]
fn test_parse_front_matter_with_lists() {
    let block = "title: T\ndate: 2024-01-01\nslug: t\ntags: [a,b]\ncategories: [news]";
    let meta = parse_front_matter(block).expect("front matter should parse");
    assert_eq!(meta.title, "T");
    assert_eq!(meta.tags, Some(vec!["a".to_string(), "b".to_string()]));
    assert_eq!(meta.categories, Some(vec!["news".to_string()]));
}

#[test]
fn test_serialize_front_matter_exact_output() {
    let meta = PostMeta {
        title: "T".to_string(),
        date: "2024-01-01".to_string(),
        slug: "t".to_string(),
        tags: Some(vec!["a".to_string(), "b".to_string()]),
        categories: None,
    };
    let block = serialize_front_matter(&meta);
    assert_eq!(block, "title: T\ndate: 2024-01-01\nslug: t\ntags: [a,b]");
}

#[test]
fn test_front_matter_round_trip() {
    let meta = PostMeta {
        title: "A post: with punctuation".to_string(),
        date: "2024-06-30".to_string(),
        slug: "a-post".to_string(),
        tags: Some(vec!["rust lang".to_string(), "web".to_string()]),
        categories: Some(vec!["news".to_string()]),
    };
    let block = serialize_front_matter(&meta);
    let parsed = parse_front_matter(&block).expect("round trip should parse");
    assert_eq!(parsed, meta);
}

#[test]
fn test_loader_all_or_nothing() {
    let sources = vec![
        FileSource {
            path: "posts/good.md".to_string(),
            content: "---\ntitle: Good\ndate: 2023-01-01\nslug: good\n---\n# ok\n".to_string(),
        },
        FileSource {
            path: "posts/bad.md".to_string(),
            content: "# no front matter here\n".to_string(),
        },
    ];
    let result = load_posts_from_sources(&sources);
    let err = result.expect_err("a malformed file must fail the whole load");
    assert_eq!(err.path, "posts/bad.md");
    assert_eq!(err.error, ParseError::MissingFrontMatter);
}

#[test]
fn test_loader_success_keeps_order() {
    let sources = vec![
        FileSource {
            path: "a.md".to_string(),
            content: "---\ntitle: Post 1\ndate: 2023-01-01\nslug: post-1\n---\n# Content 1\n"
                .to_string(),
        },
        FileSource {
            path: "b.md".to_string(),
            content: "---\ntitle: Post 2\ndate: 2023-01-02\nslug: post-2\n---\n# Content 2\n"
                .to_string(),
        },
    ];
    let posts = load_posts_from_sources(&sources).expect("Failed to load posts");
    assert_eq!(posts.len(), 2);
    assert_eq!(posts[0].meta.title, "Post 1");
    assert_eq!(posts[1].meta.title, "Post 2");
}

#[test]
fn test_is_markdown_name() {
    assert!(is_markdown_name("post.md"));
    assert!(!is_markdown_name("ignored.txt"));
    assert!(!is_markdown_name("md"));
    assert!(!is_markdown_name(".md"));
}

#[test]
fn test_parse_markdown_supports_extensions() {
    let raw = "---\ntitle: T\ndate: D\nslug: t\n---\n~~gone~~\n\n> quoted\n";
    let result = parse_markdown(raw).expect("Failed to parse markdown");
    assert!(result.content.contains("<del>gone</del>"));
    assert!(result.content.contains("<blockquote>"));
}

#[test]
fn test_parse_front_matter_trims_list_items() {
    let block = "title: T\ndate: D\nslug: t\ntags: [rust, web]";
    let meta = parse_front_matter(block).expect("front matter should parse");
    assert_eq!(meta.tags, Some(vec!["rust".to_string(), "web".to_string()]));
}

#[test]
fn test_load_error_message_names_path() {
    let sources = vec![FileSource {
        path: "posts/broken.md".to_string(),
        content: "no front matter".to_string(),
    }];
    let err = load_posts_from_sources(&sources).unwrap_err();
    assert_eq!(err.message(), "failed to parse file posts/broken.md: no front matter found");
}
