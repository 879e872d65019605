//! Configuration records for the site: server settings, page records, post
//! records and feed settings. The records arrive already deserialized from an
//! external loader; this module holds their shapes and the normalization
//! applied before the index is built (resolving paths against the site root
//! and dropping trailing slashes from URLs).

use vstd::prelude::*;
use crate::timestamp::Timestamp;
use crate::util::{drop_trailing_slash, join_path, spec_drop_trailing_slash, spec_join_path};

verus! {

/// Server settings: bind address and the filesystem roots of the site.
#[derive(Debug, Clone)]
pub struct Server {
    pub bind_addr: String,
    pub bind_port: u16,
    pub static_files_path: String,
    pub templates_path: String,
    pub syntaxes_path: Option<String>,
    pub pages_path: String,
    pub posts_path: String,
}

/// Feed settings: channel metadata and the maximum number of items.
#[derive(Debug, Clone)]
pub struct Rss {
    pub title: String,
    pub description: String,
    pub url: String,
    pub count: usize,
}

/// One page record: a source file, a title, a canonical URL and optional
/// alternate (legacy) URLs that should redirect to the canonical one.
#[derive(Debug, Clone)]
pub struct Page {
    pub file_path: String,
    pub title: String,
    pub url: String,
    pub alternate_urls: Option<Vec<String>>,
}

/// The page configuration: a list of page records.
#[derive(Debug, Clone)]
pub struct Pages {
    pub pages: Vec<Page>,
}

/// One post record: a source file, a title, a publish timestamp, a URL slug,
/// optional alternate URLs and optional tags.
#[derive(Debug, Clone)]
pub struct Post {
    pub file_path: String,
    pub title: String,
    pub date: Timestamp,
    pub slug: String,
    pub alternate_urls: Option<Vec<String>>,
    pub tags: Option<Vec<String>>,
}

/// The post configuration: a list of post records and the feed settings.
#[derive(Debug, Clone)]
pub struct Posts {
    pub posts: Vec<Post>,
    pub rss: Rss,
}

/// Configuration loading failures, as handed back by the external loader:
/// either an unreadable file (path, cause) or a malformed document.
#[derive(Debug)]
pub enum ConfigError {
    IOError(String, String),
    SerdeError(String),
}

/// Mathematical model of a page record. A missing alternate-URL list is
/// modelled as the empty sequence.
pub struct PageRecV {
    pub file_path: Seq<char>,
    pub title: Seq<char>,
    pub url: Seq<char>,
    pub alternate_urls: Seq<Seq<char>>,
}

/// Mathematical model of a post record. Missing alternate-URL and tag lists
/// are modelled as empty sequences.
pub struct PostRecV {
    pub file_path: Seq<char>,
    pub title: Seq<char>,
    pub date: Timestamp,
    pub slug: Seq<char>,
    pub alternate_urls: Seq<Seq<char>>,
    pub tags: Seq<Seq<char>>,
}

/// Mathematical model of the feed settings.
pub struct RssV {
    pub title: Seq<char>,
    pub description: Seq<char>,
    pub url: Seq<char>,
    pub count: int,
}

/// The sequences named by an optional list of strings.
pub open spec fn opt_strings_view(o: Option<Vec<String>>) -> Seq<Seq<char>> {
    match o {
        Option::None => Seq::<Seq<char>>::empty(),
        Option::Some(v) => v@.map_values(|s: String| s@),
    }
}

impl View for Page {
    type V = PageRecV;

    open spec fn view(&self) -> PageRecV {
        PageRecV {
            file_path: self.file_path@,
            title: self.title@,
            url: self.url@,
            alternate_urls: opt_strings_view(self.alternate_urls),
        }
    }
}

impl View for Post {
    type V = PostRecV;

    open spec fn view(&self) -> PostRecV {
        PostRecV {
            file_path: self.file_path@,
            title: self.title@,
            date: self.date,
            slug: self.slug@,
            alternate_urls: opt_strings_view(self.alternate_urls),
            tags: opt_strings_view(self.tags),
        }
    }
}

impl View for Rss {
    type V = RssV;

    open spec fn view(&self) -> RssV {
        RssV {
            title: self.title@,
            description: self.description@,
            url: self.url@,
            count: self.count as int,
        }
    }
}

impl View for Pages {
    type V = Seq<PageRecV>;

    open spec fn view(&self) -> Seq<PageRecV> {
        self.pages@.map_values(|p: Page| p@)
    }
}

impl View for Posts {
    type V = Seq<PostRecV>;

    open spec fn view(&self) -> Seq<PostRecV> {
        self.posts@.map_values(|p: Post| p@)
    }
}

/// A page record after normalization: its source path resolved against the
/// pages root, and every URL stripped of one trailing slash.
pub open spec fn spec_normalize_page(p: PageRecV, root: Seq<char>) -> PageRecV {
    PageRecV {
        file_path: spec_join_path(root, p.file_path),
        title: p.title,
        url: spec_drop_trailing_slash(p.url),
        alternate_urls: p.alternate_urls.map_values(|u: Seq<char>| spec_drop_trailing_slash(u)),
    }
}

/// A post record after normalization: its source path resolved against the
/// posts root, and every alternate URL stripped of one trailing slash.
pub open spec fn spec_normalize_post(p: PostRecV, root: Seq<char>) -> PostRecV {
    PostRecV {
        file_path: spec_join_path(root, p.file_path),
        title: p.title,
        date: p.date,
        slug: p.slug,
        alternate_urls: p.alternate_urls.map_values(|u: Seq<char>| spec_drop_trailing_slash(u)),
        tags: p.tags,
    }
}

pub(crate) fn clone_strings(v: &Vec<String>) -> (r: Vec<String>)
    ensures
        r@.len() == v@.len(),
        forall|i: int| 0 <= i < v@.len() ==> r@[i]@ == v@[i]@,
{
    let mut out: Vec<String> = Vec::new();
    let mut i: usize = 0;
    while i < v.len()
        invariant
            i <= v.len(),
            out@.len() == i,
            forall|k: int| 0 <= k < i ==> out@[k]@ == v@[k]@,
        decreases v.len() - i,
    {
        out.push(v[i].clone());
        i = i + 1;
    }
    out
}

fn normalize_alternate_urls(alts: &Option<Vec<String>>) -> (r: Option<Vec<String>>)
    ensures
        opt_strings_view(r) =~= opt_strings_view(*alts).map_values(
            |u: Seq<char>| spec_drop_trailing_slash(u),
        ),
{
    match alts {
        Option::None => Option::None,
        Option::Some(v) => {
            let mut nv: Vec<String> = Vec::new();
            let mut j: usize = 0;
            while j < v.len()
                invariant
                    j <= v.len(),
                    nv@.len() == j,
                    forall|k: int|
                        0 <= k < j ==> nv@[k]@ == spec_drop_trailing_slash(v@[k]@),
                decreases v.len() - j,
            {
                let mut u = v[j].clone();
                drop_trailing_slash(&mut u);
                nv.push(u);
                j = j + 1;
            }
            proof {
                assert(nv@.map_values(|s: String| s@) =~= v@.map_values(|s: String| s@).map_values(
                    |u: Seq<char>| spec_drop_trailing_slash(u),
                ));
            }
            Option::Some(nv)
        },
    }
}

/// Resolves every filesystem path in the server settings against the site
/// root, leaving the bind address and port unchanged.
pub fn resolve_server_paths(server: &Server, site_root: &String) -> (r: Server)
    ensures
        r.bind_addr@ == server.bind_addr@,
        r.bind_port == server.bind_port,
        r.static_files_path@ == spec_join_path(site_root@, server.static_files_path@),
        r.templates_path@ == spec_join_path(site_root@, server.templates_path@),
        r.pages_path@ == spec_join_path(site_root@, server.pages_path@),
        r.posts_path@ == spec_join_path(site_root@, server.posts_path@),
        r.syntaxes_path is Some <==> server.syntaxes_path is Some,
        r.syntaxes_path is Some ==> r.syntaxes_path->0@ == spec_join_path(
            site_root@,
            server.syntaxes_path->0@,
        ),
{
    let syntaxes_path = match &server.syntaxes_path {
        Option::None => Option::None,
        Option::Some(p) => Option::Some(join_path(site_root, p)),
    };
    Server {
        bind_addr: server.bind_addr.clone(),
        bind_port: server.bind_port,
        static_files_path: join_path(site_root, &server.static_files_path),
        templates_path: join_path(site_root, &server.templates_path),
        syntaxes_path,
        pages_path: join_path(site_root, &server.pages_path),
        posts_path: join_path(site_root, &server.posts_path),
    }
}

/// Normalizes every page record: source paths are resolved against the pages
/// root and all URLs lose a trailing slash, so that lookups are exact.
pub fn normalize_pages(pages: &Pages, pages_root: &String) -> (r: Pages)
    ensures
        r@.len() == pages@.len(),
        forall|i: int| 0 <= i < pages@.len() ==> r@[i] == spec_normalize_page(
            pages@[i],
            pages_root@,
        ),
{
    let mut out: Vec<Page> = Vec::new();
    let mut i: usize = 0;
    while i < pages.pages.len()
        invariant
            i <= pages.pages.len(),
            out@.len() == i,
            forall|k: int| 0 <= k < i ==> out@[k]@ == spec_normalize_page(
                pages.pages@[k]@,
                pages_root@,
            ),
        decreases pages.pages.len() - i,
    {
        let p = &pages.pages[i];
        let mut url = p.url.clone();
        drop_trailing_slash(&mut url);
        let np = Page {
            file_path: join_path(pages_root, &p.file_path),
            title: p.title.clone(),
            url,
            alternate_urls: normalize_alternate_urls(&p.alternate_urls),
        };
        out.push(np);
        i = i + 1;
    }
    Pages { pages: out }
}

/// Normalizes every post record: source paths are resolved against the posts
/// root and all alternate URLs lose a trailing slash.
pub fn normalize_posts(posts: &Vec<Post>, posts_root: &String) -> (r: Vec<Post>)
    ensures
        r@.len() == posts@.len(),
        forall|i: int| 0 <= i < posts@.len() ==> r@[i]@ == spec_normalize_post(
            posts@[i]@,
            posts_root@,
        ),
{
    let mut out: Vec<Post> = Vec::new();
    let mut i: usize = 0;
    while i < posts.len()
        invariant
            i <= posts.len(),
            out@.len() == i,
            forall|k: int| 0 <= k < i ==> out@[k]@ == spec_normalize_post(
                posts@[k]@,
                posts_root@,
            ),
        decreases posts.len() - i,
    {
        let p = &posts[i];
        let tags = match &p.tags {
            Option::None => Option::None,
            Option::Some(v) => Option::Some(clone_strings(v)),
        };
        proof {
            assert(opt_strings_view(tags) =~= opt_strings_view(p.tags));
        }
        let np = Post {
            file_path: join_path(posts_root, &p.file_path),
            title: p.title.clone(),
            date: p.date,
            slug: p.slug.clone(),
            alternate_urls: normalize_alternate_urls(&p.alternate_urls),
            tags,
        };
        out.push(np);
        i = i + 1;
    }
    out
}

} // verus!
