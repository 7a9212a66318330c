use web_blog::domain::{Config, Post, PostMeta};
use web_blog::pagination::paginate;
use web_blog::seo::{generate_rss, generate_search_index, generate_sitemap};
use web_blog::taxonomy::{group_by_category, group_by_tag};

fn post(title: &str, date: &str, slug: &str, tags: Option<Vec<String>>, content: &str) -> Post {
    Post {
        meta: PostMeta {
            title: title.to_string(),
            date: date.to_string(),
            slug: slug.to_string(),
            tags,
            categories: None,
        },
        content: content.to_string(),
    }
}

#[test]
fn test_paginate() {
    let items = vec![1, 2, 3, 4, 5];
    let pages = paginate(items, 2);

    assert_eq!(pages.len(), 3);
    assert_eq!(pages[0].items, vec![1, 2]);
    assert_eq!(pages[0].current_page, 1);
    assert_eq!(pages[0].total_pages, 3);

    assert_eq!(pages[2].items, vec![5]);
    assert_eq!(pages[2].current_page, 3);
}

#[test]
fn test_paginate_empty_input_yields_no_pages() {
    let items: Vec<i32> = vec![];
    let pages = paginate(items, 3);
    assert!(pages.is_empty());
}

#[test]
fn test_paginate_concatenation_restores_order() {
    let items: Vec<u32> = (0..23).collect();
    let pages = paginate(items.clone(), 7);
    assert_eq!(pages.len(), 4);
    let mut joined: Vec<u32> = Vec::new();
    for page in &pages {
        joined.extend(page.items.iter().cloned());
    }
    assert_eq!(joined, items);
    for page in &pages[..pages.len() - 1] {
        assert_eq!(page.items.len(), 7);
    }
    assert_eq!(pages[3].items.len(), 2);
}

#[test]
fn test_group_by_tag() {
    let posts = vec![
        post("P1", "2023", "p1", Some(vec!["rust".to_string(), "web".to_string()]), ""),
        post("P2", "2023", "p2", Some(vec!["rust".to_string()]), ""),
    ];

    let grouped = group_by_tag(&posts);
    assert_eq!(grouped.get("rust").unwrap().len(), 2);
    assert_eq!(grouped.get("web").unwrap().len(), 1);
}

#[test]
fn test_group_by_tag_no_tags_no_groups() {
    let posts = vec![post("P1", "2023", "p1", None, "")];
    let grouped = group_by_tag(&posts);
    assert_eq!(grouped.len(), 0);
    assert!(grouped.get("rust").is_none());
}

#[test]
fn test_group_by_tag_membership_is_exact() {
    let posts = vec![post(
        "P1",
        "2023",
        "p1",
        Some(vec!["a".to_string(), "b".to_string()]),
        "",
    )];
    let grouped = group_by_tag(&posts);
    assert_eq!(grouped.len(), 2);
    assert_eq!(grouped.get("a").unwrap().len(), 1);
    assert_eq!(grouped.get("b").unwrap().len(), 1);
    assert!(grouped.get("c").is_none());
    assert_eq!(grouped.get("a").unwrap()[0].meta.title, "P1");
}

#[test]
fn test_group_by_category() {
    let mut p = post("P1", "2023", "p1", None, "");
    p.meta.categories = Some(vec!["news".to_string()]);
    let posts = vec![p];
    let grouped = group_by_category(&posts);
    assert_eq!(grouped.get("news").unwrap().len(), 1);
    assert!(grouped.get("rust").is_none());
}

#[test]
fn test_generate_sitemap() {
    let config = Config {
        title: "Test Blog".to_string(),
        base_url: "https://example.com".to_string(),
        description: None,
        posts_per_page: None,
    };

    let posts = vec![post("Post 1", "2023-01-01", "post-1", None, "content")];

    let sitemap = generate_sitemap(&posts, &config).expect("Failed to generate sitemap");

    assert!(sitemap.contains("<loc>https://example.com/</loc>"));
    assert!(sitemap.contains("<loc>https://example.com/posts/post-1/</loc>"));
}

#[test]
fn test_generate_sitemap_exact_output() {
    let config = Config {
        title: "T".to_string(),
        base_url: "https://example.com/".to_string(),
        description: None,
        posts_per_page: None,
    };
    let posts = vec![post("Post 1", "2023-01-01", "post-1", None, "content")];
    let sitemap = generate_sitemap(&posts, &config).unwrap();
    let expected = "<?xml version=\"1.0\" encoding=\"UTF-8\"?>\n\
        <urlset xmlns=\"http://www.sitemaps.org/schemas/sitemap/0.9\">\n\
        \x20 <url><loc>https://example.com/</loc></url>\n\
        \x20 <url><loc>https://example.com/posts/post-1/</loc></url>\n\
        </urlset>";
    assert_eq!(sitemap, expected);
}

#[test]
fn test_generate_rss() {
    let config = Config {
        title: "Test Blog".to_string(),
        base_url: "https://example.com".to_string(),
        description: Some("A test blog".to_string()),
        posts_per_page: None,
    };

    let posts = vec![post("Post 1", "2023-01-01", "post-1", None, "content")];

    let rss = generate_rss(&posts, &config).expect("Failed to generate RSS");

    assert!(rss.contains("<title>Test Blog</title>"));
    assert!(rss.contains("<link>https://example.com</link>"));
    assert!(rss.contains("<title>Post 1</title>"));
    assert!(rss.contains("https://example.com/posts/post-1/"));
}

#[test]
fn test_generate_rss_carries_date_verbatim() {
    let config = Config {
        title: "B".to_string(),
        base_url: "https://b.test".to_string(),
        description: None,
        posts_per_page: None,
    };
    let posts = vec![post("P", "not-a-date at all", "p", None, "")];
    let rss = generate_rss(&posts, &config).unwrap();
    assert!(rss.contains("<pubDate>not-a-date at all</pubDate>"));
    assert!(rss.contains("<description></description>"));
}

#[test]
fn test_generate_search_index() {
    let posts = vec![post(
        "Searchable Post",
        "2023-01-01",
        "searchable-post",
        Some(vec!["rust".to_string()]),
        "This is searchable content",
    )];

    let index_json = generate_search_index(&posts).expect("Failed to generate search index");
    assert!(index_json.contains("Searchable Post"));
    assert!(index_json.contains("searchable-post"));
}

#[test]
fn test_generate_search_index_exact_output_and_escaping() {
    let posts = vec![post("A \"quoted\" title", "2023", "a", None, "line1\nline2\\end")];
    let index_json = generate_search_index(&posts).unwrap();
    let expected = "[{\"title\":\"A \\\"quoted\\\" title\",\"slug\":\"a\",\
        \"content\":\"line1\\nline2\\\\end\"}]";
    assert_eq!(index_json, expected);
}

#[test]
fn test_taxonomy_keys_lists_each_group_once() {
    let posts = vec![
        post("P1", "2023", "p1", Some(vec!["rust".to_string(), "web".to_string()]), ""),
        post("P2", "2023", "p2", Some(vec!["rust".to_string()]), ""),
    ];
    let grouped = group_by_tag(&posts);
    let mut keys = grouped.keys();
    keys.sort();
    assert_eq!(keys, vec!["rust".to_string(), "web".to_string()]);
}
