use pbe::config::{Page as PageRec, Pages, Post as PostRec, Posts, Rss, Server};
use pbe::service::{ResolvedContent, SiteService};
use pbe::site::ContentError;
use pbe::timestamp::Timestamp;

fn server() -> Server {
    Server {
        bind_addr: String::from("127.0.0.1"),
        bind_port: 8080,
        static_files_path: String::from("/site/static"),
        templates_path: String::from("/site/templates"),
        syntaxes_path: None,
        pages_path: String::from("/site/pages"),
        posts_path: String::from("/site/posts"),
    }
}

fn rss() -> Rss {
    Rss {
        title: String::from("Example"),
        description: String::from("An example feed"),
        url: String::from("https://example.com/"),
        count: 5,
    }
}

fn post_record(title: &str, date: Timestamp, slug: &str) -> PostRec {
    PostRec {
        file_path: format!("{slug}.md"),
        title: String::from(title),
        date,
        slug: String::from(slug),
        alternate_urls: None,
        tags: Some(vec![String::from("news")]),
    }
}

fn page_record(title: &str, url: &str, alternates: &[&str]) -> PageRec {
    PageRec {
        file_path: format!("{title}.md"),
        title: String::from(title),
        url: String::from(url),
        alternate_urls: if alternates.is_empty() {
            None
        } else {
            Some(alternates.iter().map(|a| String::from(*a)).collect())
        },
    }
}

fn ok_sources(n: usize) -> Vec<Result<String, ContentError>> {
    (0..n).map(|i| Ok(format!("<p>body {i}</p>"))).collect()
}

fn service_with_one_post() -> SiteService {
    let pages = vec![page_record("About", "/about", &["/old-about"])];
    let posts = vec![post_record("Hello", Timestamp::new(2023, 5, 1, 0, 0, 0), "hello")];
    SiteService::new(
        server(),
        Pages { pages },
        Posts { posts, rss: rss() },
        ok_sources(1),
        ok_sources(1),
    )
    .unwrap()
}

#[test]
fn service_serves_latest_post() {
    let service = service_with_one_post();
    let latest = service.latest_post().unwrap();
    assert_eq!(latest.title, "Hello");
    assert_eq!(latest.url, "/2023/05/01/hello");
}

#[test]
fn service_resolves_urls_with_redirect_priority() {
    let service = service_with_one_post();
    match service.content_at(&String::from("/old-about")) {
        Some(ResolvedContent::Redirect(target)) => assert_eq!(target, "/about"),
        _ => panic!("expected a redirect"),
    }
    assert!(matches!(
        service.content_at(&String::from("/about")),
        Some(ResolvedContent::Page(_))
    ));
    assert!(matches!(
        service.content_at(&String::from("/2023/05/01/hello")),
        Some(ResolvedContent::Post(_))
    ));
    assert!(service.content_at(&String::from("/missing")).is_none());
}

#[test]
fn service_archive_and_tags() {
    let service = service_with_one_post();
    let archive = service.posts_archive();
    assert_eq!(archive.len(), 1);
    assert_eq!(archive[0].title, "Hello");
    let tagged = service.posts_with_tag(&String::from("news"));
    assert_eq!(tagged.len(), 1);
    assert!(service.posts_with_tag(&String::from("none")).is_empty());
}

#[test]
fn service_feed_links_are_absolute() {
    let service = service_with_one_post();
    let feed = service.feed().unwrap();
    assert_eq!(feed.items.len(), 1);
    assert_eq!(feed.items[0].link, "https://example.com/2023/05/01/hello");
}

#[test]
fn refresh_swaps_in_the_new_snapshot() {
    let service = service_with_one_post();
    let newer = vec![post_record("Newer", Timestamp::new(2024, 1, 2, 0, 0, 0), "newer")];
    service
        .refresh_content(
            Pages { pages: vec![] },
            Posts { posts: newer, rss: rss() },
            vec![],
            ok_sources(1),
        )
        .unwrap();
    let latest = service.latest_post().unwrap();
    assert_eq!(latest.title, "Newer");
    // the old page is gone from the new snapshot
    assert!(service.content_at(&String::from("/about")).is_none());
}

#[test]
fn failed_refresh_keeps_the_previous_snapshot() {
    let service = service_with_one_post();
    let bad_posts = vec![post_record("Broken", Timestamp::new(2024, 1, 2, 0, 0, 0), "broken")];
    let bad_sources = vec![Err(ContentError::RenderingError(
        String::from("broken.md"),
        String::from("unbalanced fence"),
    ))];
    let result = service.refresh_content(
        Pages { pages: vec![] },
        Posts { posts: bad_posts, rss: rss() },
        vec![],
        bad_sources,
    );
    assert!(result.is_err());
    // the previous snapshot still answers queries
    let latest = service.latest_post().unwrap();
    assert_eq!(latest.title, "Hello");
    assert!(matches!(
        service.content_at(&String::from("/old-about")),
        Some(ResolvedContent::Redirect(_))
    ));
}
