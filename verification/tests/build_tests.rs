use pbe::config::{Page as PageRec, Pages, Post as PostRec, Posts, Rss};
use pbe::feed::feed_of_content;
use pbe::site::{Content, ContentError, SiteContent, SiteError};
use pbe::timestamp::Timestamp;

fn post_record(title: &str, date: Timestamp, slug: &str, tags: &[&str]) -> PostRec {
    PostRec {
        file_path: format!("{slug}.md"),
        title: String::from(title),
        date,
        slug: String::from(slug),
        alternate_urls: None,
        tags: if tags.is_empty() {
            None
        } else {
            Some(tags.iter().map(|t| String::from(*t)).collect())
        },
    }
}

fn page_record(title: &str, url: &str, alternates: &[&str]) -> PageRec {
    PageRec {
        file_path: format!("{title}.md"),
        title: String::from(title),
        url: String::from(url),
        alternate_urls: if alternates.is_empty() {
            None
        } else {
            Some(alternates.iter().map(|a| String::from(*a)).collect())
        },
    }
}

fn rss() -> Rss {
    Rss {
        title: String::from("Example"),
        description: String::from("An example feed"),
        url: String::from("https://example.com/"),
        count: 10,
    }
}

fn ok_sources(n: usize) -> Vec<Result<String, ContentError>> {
    (0..n).map(|i| Ok(format!("<p>body {i}</p>"))).collect()
}

fn build(pages: Vec<PageRec>, posts: Vec<PostRec>, rss: Rss) -> Result<SiteContent, SiteError> {
    let np = pages.len();
    let nq = posts.len();
    SiteContent::new(
        Pages { pages },
        Posts { posts, rss },
        ok_sources(np),
        ok_sources(nq),
    )
}

fn three_posts() -> Vec<PostRec> {
    vec![
        post_record("Oldest", Timestamp::new(2021, 1, 1, 0, 0, 0), "oldest", &["retro"]),
        post_record("Newest", Timestamp::new(2023, 5, 1, 0, 0, 0), "hello", &["news", "retro"]),
        post_record("Middle", Timestamp::new(2022, 6, 15, 12, 0, 0), "middle", &["news"]),
    ]
}

#[test]
fn posts_are_sorted_descending_by_date() {
    let content = build(vec![], three_posts(), rss()).unwrap();
    let posts = content.get_posts_ordered_by_date();
    assert_eq!(posts.len(), 3);
    assert_eq!(posts[0].title, "Newest");
    assert_eq!(posts[1].title, "Middle");
    assert_eq!(posts[2].title, "Oldest");
}

#[test]
fn equal_dates_keep_record_order() {
    let when = Timestamp::new(2023, 5, 1, 8, 0, 0);
    let posts = vec![
        post_record("First", when, "first", &[]),
        post_record("Second", when, "second", &[]),
        post_record("Later", Timestamp::new(2023, 5, 2, 0, 0, 0), "later", &[]),
    ];
    let content = build(vec![], posts, rss()).unwrap();
    let ordered = content.get_posts_ordered_by_date();
    assert_eq!(ordered[0].title, "Later");
    assert_eq!(ordered[1].title, "First");
    assert_eq!(ordered[2].title, "Second");
}

#[test]
fn post_canonical_url_is_derived_from_date_and_slug() {
    let posts = vec![post_record("Hello", Timestamp::new(2023, 5, 1, 0, 0, 0), "hello", &[])];
    let content = build(vec![], posts, rss()).unwrap();
    let post = content.get_post_by_url(&String::from("/2023/05/01/hello")).unwrap();
    assert_eq!(post.title, "Hello");
}

#[test]
fn alternate_url_resolves_to_redirect() {
    let pages = vec![page_record("About", "/about", &["/old-about"])];
    let content = build(pages, vec![], rss()).unwrap();
    match content.get_content_at(&String::from("/old-about")) {
        Some(Content::Redirect(target)) => assert_eq!(target, "/about"),
        _ => panic!("expected a redirect"),
    }
}

#[test]
fn redirect_takes_priority_over_content() {
    // A page registers an alternate URL equal to a post's canonical URL; the
    // redirect table is consulted first.
    let pages = vec![page_record("About", "/about", &["/2023/05/01/hello"])];
    let posts = vec![post_record("Hello", Timestamp::new(2023, 5, 1, 0, 0, 0), "hello", &[])];
    let content = build(pages, posts, rss()).unwrap();
    match content.get_content_at(&String::from("/2023/05/01/hello")) {
        Some(Content::Redirect(target)) => assert_eq!(target, "/about"),
        _ => panic!("expected the redirect to win"),
    }
}

#[test]
fn resolution_order_post_then_page() {
    let pages = vec![page_record("About", "/about", &[])];
    let posts = vec![post_record("Hello", Timestamp::new(2023, 5, 1, 0, 0, 0), "hello", &[])];
    let content = build(pages, posts, rss()).unwrap();
    assert!(matches!(
        content.get_content_at(&String::from("/2023/05/01/hello")),
        Some(Content::Post(_))
    ));
    assert!(matches!(content.get_content_at(&String::from("/about")), Some(Content::Page(_))));
    assert!(content.get_content_at(&String::from("/missing")).is_none());
}

#[test]
fn posts_by_tag_keep_global_order() {
    let content = build(vec![], three_posts(), rss()).unwrap();
    let news: Vec<String> =
        content.get_posts_with_tag_ordered_by_date(&String::from("news")).iter().map(|p| p.title.clone()).collect();
    assert_eq!(news, vec![String::from("Newest"), String::from("Middle")]);
    let retro: Vec<String> =
        content.get_posts_with_tag_ordered_by_date(&String::from("retro")).iter().map(|p| p.title.clone()).collect();
    assert_eq!(retro, vec![String::from("Newest"), String::from("Oldest")]);
    assert!(content.get_posts_with_tag_ordered_by_date(&String::from("nope")).is_empty());
}

#[test]
fn latest_post_is_most_recent() {
    let content = build(vec![], three_posts(), rss()).unwrap();
    assert_eq!(content.get_latest_post().unwrap().title, "Newest");
    let empty = build(vec![], vec![], rss()).unwrap();
    assert!(empty.get_latest_post().is_none());
}

#[test]
fn duplicate_post_urls_abort_the_build() {
    let when = Timestamp::new(2023, 5, 1, 0, 0, 0);
    let posts = vec![
        post_record("One", when, "same", &[]),
        post_record("Two", when, "same", &[]),
    ];
    match build(vec![], posts, rss()) {
        Err(SiteError::DuplicateUrlError(url)) => assert_eq!(url, "/2023/05/01/same"),
        _ => panic!("expected a duplicate URL error"),
    }
}

#[test]
fn duplicate_page_and_post_urls_abort_the_build() {
    let pages = vec![page_record("Clash", "/2023/05/01/hello", &[])];
    let posts = vec![post_record("Hello", Timestamp::new(2023, 5, 1, 0, 0, 0), "hello", &[])];
    match build(pages, posts, rss()) {
        Err(SiteError::DuplicateUrlError(url)) => assert_eq!(url, "/2023/05/01/hello"),
        _ => panic!("expected a duplicate URL error"),
    }
}

#[test]
fn failed_rendering_aborts_the_build() {
    let posts = vec![post_record("Hello", Timestamp::new(2023, 5, 1, 0, 0, 0), "hello", &[])];
    let sources = vec![Err(ContentError::IOError(
        String::from("hello.md"),
        String::from("no such file"),
    ))];
    match SiteContent::new(Pages { pages: vec![] }, Posts { posts, rss: rss() }, vec![], sources) {
        Err(SiteError::ContentError(ContentError::IOError(path, _))) => {
            assert_eq!(path, "hello.md")
        },
        _ => panic!("expected the rendering failure to abort the build"),
    }
}

#[test]
fn rebuilds_on_equal_inputs_are_element_wise_equal() {
    let a = build(
        vec![page_record("About", "/about", &["/old-about"])],
        three_posts(),
        rss(),
    )
    .unwrap();
    let b = build(
        vec![page_record("About", "/about", &["/old-about"])],
        three_posts(),
        rss(),
    )
    .unwrap();
    assert_eq!(a.pages.len(), b.pages.len());
    assert_eq!(a.posts.len(), b.posts.len());
    for (x, y) in a.pages.iter().zip(b.pages.iter()) {
        assert_eq!(x.url, y.url);
        assert_eq!(x.title, y.title);
        assert_eq!(x.content_html, y.content_html);
    }
    for (x, y) in a.posts.iter().zip(b.posts.iter()) {
        assert_eq!(x.url, y.url);
        assert_eq!(x.title, y.title);
        assert_eq!(x.content_html, y.content_html);
        assert!(!x.date.lt(&y.date) && !y.date.lt(&x.date));
        assert_eq!(x.tags, y.tags);
    }
    assert_eq!(a.rss.title, b.rss.title);
    assert_eq!(a.rss.count, b.rss.count);
}

#[test]
fn feed_takes_the_configured_number_of_most_recent_posts() {
    let mut settings = rss();
    settings.count = 2;
    let content = build(vec![], three_posts(), settings).unwrap();
    let feed = feed_of_content(&content).unwrap();
    assert_eq!(feed.title, "Example");
    assert_eq!(feed.link, "https://example.com/");
    assert_eq!(feed.items.len(), 2);
    assert_eq!(feed.items[0].title, "Newest");
    assert_eq!(feed.items[0].link, "https://example.com/2023/05/01/hello");
    assert_eq!(feed.items[1].title, "Middle");
    assert_eq!(feed.items[1].link, "https://example.com/2022/06/15/middle");
}

#[test]
fn feed_with_unparsable_base_url_fails() {
    let mut settings = rss();
    settings.url = String::from("not a url");
    let content = build(vec![], three_posts(), settings).unwrap();
    match feed_of_content(&content) {
        Err(SiteError::FeedUrlError(url)) => assert_eq!(url, "not a url"),
        _ => panic!("expected a feed URL error"),
    }
}

#[test]
fn feed_of_empty_post_list_is_empty() {
    let content = build(vec![], vec![], rss()).unwrap();
    let feed = feed_of_content(&content).unwrap();
    assert!(feed.items.is_empty());
}
