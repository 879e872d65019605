use pbe::config::{Page, Pages, Server};
use pbe::config::{normalize_pages, resolve_server_paths};
use pbe::site::canonical_url;
use pbe::timestamp::Timestamp;
use pbe::util::{drop_trailing_slash, is_markdown_source, join_path};

#[test]
fn drop_trailing_slash_removes_one_slash() {
    let mut s = String::from("/about/");
    drop_trailing_slash(&mut s);
    assert_eq!(s, "/about");
}

#[test]
fn drop_trailing_slash_leaves_plain_url() {
    let mut s = String::from("/about");
    drop_trailing_slash(&mut s);
    assert_eq!(s, "/about");
}

#[test]
fn drop_trailing_slash_on_root_and_empty() {
    let mut root = String::from("/");
    drop_trailing_slash(&mut root);
    assert_eq!(root, "");
    let mut empty = String::new();
    drop_trailing_slash(&mut empty);
    assert_eq!(empty, "");
}

#[test]
fn join_path_inserts_separator() {
    assert_eq!(join_path(&String::from("/site"), &String::from("pages")), "/site/pages");
}

#[test]
fn join_path_keeps_existing_separator() {
    assert_eq!(join_path(&String::from("/site/"), &String::from("pages")), "/site/pages");
}

#[test]
fn join_path_absolute_rel_replaces_root() {
    assert_eq!(join_path(&String::from("/site"), &String::from("/etc/x")), "/etc/x");
}

#[test]
fn join_path_empty_root_yields_rel() {
    assert_eq!(join_path(&String::new(), &String::from("pages")), "pages");
}

#[test]
fn timestamp_ordering_is_chronological() {
    let a = Timestamp::new(2023, 5, 1, 0, 0, 0);
    let b = Timestamp::new(2023, 5, 2, 0, 0, 0);
    let c = Timestamp::new(2022, 12, 31, 23, 59, 59);
    assert!(a.lt(&b));
    assert!(!b.lt(&a));
    assert!(c.lt(&a));
    assert!(!a.lt(&a));
    let d = Timestamp::new(2023, 5, 1, 10, 30, 0);
    assert!(a.lt(&d));
}

#[test]
fn canonical_url_pads_date_fields() {
    let date = Timestamp::new(2023, 5, 1, 0, 0, 0);
    assert_eq!(canonical_url(&date, &String::from("hello")), "/2023/05/01/hello");
}

#[test]
fn canonical_url_pads_short_year() {
    let date = Timestamp::new(800, 12, 25, 0, 0, 0);
    assert_eq!(canonical_url(&date, &String::from("old")), "/0800/12/25/old");
}

#[test]
fn resolve_server_paths_joins_all_roots() {
    let server = Server {
        bind_addr: String::from("127.0.0.1"),
        bind_port: 8080,
        static_files_path: String::from("static"),
        templates_path: String::from("templates"),
        syntaxes_path: Some(String::from("syntaxes")),
        pages_path: String::from("pages"),
        posts_path: String::from("posts"),
    };
    let resolved = resolve_server_paths(&server, &String::from("/site"));
    assert_eq!(resolved.bind_addr, "127.0.0.1");
    assert_eq!(resolved.bind_port, 8080);
    assert_eq!(resolved.static_files_path, "/site/static");
    assert_eq!(resolved.templates_path, "/site/templates");
    assert_eq!(resolved.syntaxes_path.as_deref(), Some("/site/syntaxes"));
    assert_eq!(resolved.pages_path, "/site/pages");
    assert_eq!(resolved.posts_path, "/site/posts");
}

#[test]
fn normalize_pages_resolves_paths_and_urls() {
    let pages = Pages {
        pages: vec![Page {
            file_path: String::from("about.md"),
            title: String::from("About"),
            url: String::from("/about/"),
            alternate_urls: Some(vec![String::from("/old-about/"), String::from("/about.html")]),
        }],
    };
    let normalized = normalize_pages(&pages, &String::from("/site/pages"));
    assert_eq!(normalized.pages.len(), 1);
    let p = &normalized.pages[0];
    assert_eq!(p.file_path, "/site/pages/about.md");
    assert_eq!(p.url, "/about");
    assert_eq!(
        p.alternate_urls.as_ref().unwrap(),
        &vec![String::from("/old-about"), String::from("/about.html")]
    );
}

#[test]
fn markdown_dispatch_reads_the_extension() {
    assert!(is_markdown_source(&String::from("/site/posts/hello.md")));
    assert!(is_markdown_source(&String::from("hello.md")));
    assert!(!is_markdown_source(&String::from("/site/pages/about.html")));
    assert!(!is_markdown_source(&String::from("/site/pages/raw.txt")));
    assert!(!is_markdown_source(&String::from("/site/pages/plain")));
    assert!(!is_markdown_source(&String::from("/site/pages/.md")));
    assert!(!is_markdown_source(&String::from("/site/pages.md/plain")));
    assert!(is_markdown_source(&String::from("/site/notes.v1/entry.md")));
}
