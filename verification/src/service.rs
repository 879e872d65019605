//! The index container and the service around it: one current snapshot held
//! behind a verified reader/writer lock, read by concurrent query handlers
//! and replaced wholesale by the reload path. Every snapshot stored in the
//! lock is well-formed (that is the lock's invariant), so no reader ever
//! observes a partially-built index.

use vstd::prelude::*;
use vstd::rwlock::{RwLock, RwLockPredicate};
use crate::config::{Pages, Posts, Server};
use crate::feed::{Feed, FeedItem, feed_of_content, spec_feed_count, spec_feed_items, url_joinable};
use crate::site::{
    Content, ContentError, Page, Post, SiteContent, SiteContentV, SiteError, SiteErrorV,
    build_result_v, site_view_consistent, source_views, spec_build,
};

verus! {

/// Marks the value in the service's lock as the one that gets replaced on
/// refresh.
pub struct RefreshWrapper<T> {
    pub data: T,
}

impl<T> RefreshWrapper<T> {
    pub fn new(data: T) -> (r: RefreshWrapper<T>)
        ensures
            r.data == data,
    {
        RefreshWrapper { data }
    }
}

/// The lock invariant of the index container: every snapshot behind the
/// lock is well-formed.
pub struct ContentPred {}

impl RwLockPredicate<RefreshWrapper<SiteContent>> for ContentPred {
    open spec fn inv(self, v: RefreshWrapper<SiteContent>) -> bool {
        v.data.wf()
    }
}

/// A resolved URL, with owned content, as handed to the presentation layer:
/// a page, a post, or a permanent redirect to another URL.
pub enum ResolvedContent {
    Page(Page),
    Post(Post),
    Redirect(String),
}

/// The service: the server settings and the index container. Queries take a
/// read-shared lock on the current snapshot; a refresh builds a new snapshot
/// off the lock and swaps it in under the exclusive lock.
pub struct SiteService {
    pub server_config: Server,
    pub content: RwLock<RefreshWrapper<SiteContent>, ContentPred>,
}

fn clone_post(p: &Post) -> (r: Post)
    ensures
        r@ == p@,
{
    let r = Post {
        url: p.url.clone(),
        title: p.title.clone(),
        content_html: p.content_html.clone(),
        date: p.date,
        tags: crate::config::clone_strings(&p.tags),
    };
    proof {
        assert(r@.tags =~= p@.tags);
    }
    r
}

fn clone_page(p: &Page) -> (r: Page)
    ensures
        r@ == p@,
{
    Page { url: p.url.clone(), title: p.title.clone(), content_html: p.content_html.clone() }
}

impl SiteService {
    /// The container is set up with the well-formedness invariant.
    pub open spec fn wf(&self) -> bool {
        self.content.pred() == (ContentPred {  })
    }

    /// Builds the initial snapshot from the configuration records and their
    /// rendering outcomes, and starts the service on it. A build failure is
    /// fatal here: with no index there is nothing to serve.
    pub fn new(
        server_config: Server,
        pages_config: Pages,
        posts_config: Posts,
        page_sources: Vec<Result<String, ContentError>>,
        post_sources: Vec<Result<String, ContentError>>,
    ) -> (r: Result<SiteService, SiteError>)
        requires
            page_sources@.len() == pages_config@.len(),
            post_sources@.len() == posts_config@.len(),
        ensures
            r is Ok <==> spec_build(
                pages_config@,
                source_views(page_sources@),
                posts_config@,
                source_views(post_sources@),
                posts_config.rss@,
            ) is Ok,
            r matches Result::Err(e) ==> spec_build(
                pages_config@,
                source_views(page_sources@),
                posts_config@,
                source_views(post_sources@),
                posts_config.rss@,
            ) == Result::<SiteContentV, <SiteError as View>::V>::Err(e@),
            r matches Result::Ok(s) ==> s.wf() && s.server_config == server_config,
    {
        match SiteContent::new(pages_config, posts_config, page_sources, post_sources) {
            Result::Err(e) => Result::Err(e),
            Result::Ok(content) => {
                let wrapper = RefreshWrapper::new(content);
                let lock = RwLock::new(wrapper, Ghost(ContentPred {  }));
                Result::Ok(SiteService { server_config, content: lock })
            },
        }
    }

    /// Rebuilds the snapshot from fresh records and swaps it in. The build
    /// runs entirely off the shared snapshot; only the final swap takes the
    /// exclusive lock. On failure nothing is swapped: the previous snapshot
    /// stays live and the error is handed back to be logged.
    pub fn refresh_content(
        &self,
        pages_config: Pages,
        posts_config: Posts,
        page_sources: Vec<Result<String, ContentError>>,
        post_sources: Vec<Result<String, ContentError>>,
    ) -> (r: Result<(), SiteError>)
        requires
            self.wf(),
            page_sources@.len() == pages_config@.len(),
            post_sources@.len() == posts_config@.len(),
        ensures
            r is Ok <==> spec_build(
                pages_config@,
                source_views(page_sources@),
                posts_config@,
                source_views(post_sources@),
                posts_config.rss@,
            ) is Ok,
            r matches Result::Err(e) ==> spec_build(
                pages_config@,
                source_views(page_sources@),
                posts_config@,
                source_views(post_sources@),
                posts_config.rss@,
            ) == Result::<SiteContentV, <SiteError as View>::V>::Err(e@),
    {
        match SiteContent::new(pages_config, posts_config, page_sources, post_sources) {
            Result::Err(e) => Result::Err(e),
            Result::Ok(content) => {
                let (_replaced, write_handle) = self.content.acquire_write();
                write_handle.release_write(RefreshWrapper::new(content));
                Result::Ok(())
            },
        }
    }

    /// The most recent post of the current snapshot, if any: the head of
    /// some well-formed snapshot's date-ordered post list, and nothing
    /// exactly when that list is empty.
    pub fn latest_post(&self) -> (r: Option<Post>)
        requires
            self.wf(),
        ensures
            exists|v: SiteContentV| #[trigger] site_view_consistent(v) && (r is Some <==> v.posts.len()
                > 0) && (r matches Option::Some(p) ==> p@ == v.posts[0]),
    {
        let handle = self.content.acquire_read();
        let content = &handle.borrow().data;
        let r = match content.get_latest_post() {
            Option::Some(p) => {
                let cloned = clone_post(p);
                proof {
                    assert(content@.posts.len() > 0 && cloned@ == content@.posts[0]);
                }
                Option::Some(cloned)
            },
            Option::None => Option::None,
        };
        proof {
            assert(site_view_consistent(content@));
            assert(r is Some <==> content@.posts.len() > 0);
        }
        handle.release_read();
        r
    }

    /// The posts of the current snapshot that carry `tag`, in date order.
    pub fn posts_with_tag(&self, tag: &String) -> (r: Vec<Post>)
        requires
            self.wf(),
        ensures
            exists|v: SiteContentV| #[trigger] site_view_consistent(v) && (if v.tags.contains_key(
                tag@,
            ) {
                r@.len() == v.tags[tag@].len() && forall|k: int|
                    0 <= k < r@.len() ==> r@[k]@ == v.posts[v.tags[tag@][k] as int]
            } else {
                r@.len() == 0
            }),
    {
        let handle = self.content.acquire_read();
        let content = &handle.borrow().data;
        let borrowed = content.get_posts_with_tag_ordered_by_date(tag);
        let mut r: Vec<Post> = Vec::new();
        let n = borrowed.len();
        let mut j: usize = 0;
        while j < n
            invariant
                j <= n,
                n == borrowed@.len(),
                r@.len() == j,
                forall|k: int| 0 <= k < j ==> r@[k]@ == borrowed@[k]@,
            decreases n - j,
        {
            r.push(clone_post(borrowed[j]));
            j = j + 1;
        }
        proof {
            let v = content@;
            assert(site_view_consistent(v));
        }
        handle.release_read();
        r
    }

    /// All posts of the current snapshot, in date order.
    pub fn posts_archive(&self) -> (r: Vec<Post>)
        requires
            self.wf(),
        ensures
            exists|v: SiteContentV| #[trigger] site_view_consistent(v) && r@.len() == v.posts.len()
                && forall|k: int| 0 <= k < r@.len() ==> r@[k]@ == v.posts[k],
    {
        let handle = self.content.acquire_read();
        let content = &handle.borrow().data;
        let mut r: Vec<Post> = Vec::new();
        let n = content.posts.len();
        let mut j: usize = 0;
        while j < n
            invariant
                j <= n,
                n == content.posts@.len(),
                r@.len() == j,
                forall|k: int| 0 <= k < j ==> r@[k]@ == content.posts@[k]@,
            decreases n - j,
        {
            r.push(clone_post(&content.posts[j]));
            j = j + 1;
        }
        proof {
            let v = content@;
            assert(site_view_consistent(v));
            assert(forall|k: int| 0 <= k < r@.len() ==> r@[k]@ == v.posts[k]);
        }
        handle.release_read();
        r
    }

    /// Resolves a URL against the current snapshot, in the fixed priority
    /// order: redirect first, then post, then page; absent from all three
    /// tables of the witnessed snapshot, nothing.
    pub fn content_at(&self, url: &String) -> (r: Option<ResolvedContent>)
        requires
            self.wf(),
        ensures
            exists|v: SiteContentV| #[trigger] site_view_consistent(v) && (r is Some <==> (
            v.redirects.contains_key(url@) || v.posts_by_url.contains_key(url@)
                || v.pages_by_url.contains_key(url@))) && (v.redirects.contains_key(url@) ==> (
            r matches Option::Some(ResolvedContent::Redirect(u)) && u@ == v.redirects[url@])) && (
            !v.redirects.contains_key(url@) && v.posts_by_url.contains_key(url@) ==> (r matches
            Option::Some(ResolvedContent::Post(p)) && p@ == v.posts[
                v.posts_by_url[url@] as int
            ])) && (!v.redirects.contains_key(url@) && !v.posts_by_url.contains_key(url@)
                && v.pages_by_url.contains_key(url@) ==> (r matches Option::Some(
                ResolvedContent::Page(p),
            ) && p@ == v.pages[v.pages_by_url[url@] as int])),
    {
        let handle = self.content.acquire_read();
        let content = &handle.borrow().data;
        let r = match content.get_content_at(url) {
            Option::Some(Content::Page(p)) => Option::Some(ResolvedContent::Page(clone_page(p))),
            Option::Some(Content::Post(p)) => Option::Some(ResolvedContent::Post(clone_post(p))),
            Option::Some(Content::Redirect(u)) => Option::Some(ResolvedContent::Redirect(u)),
            Option::None => Option::None,
        };
        proof {
            let v = content@;
            assert(site_view_consistent(v));
        }
        handle.release_read();
        r
    }

    /// The feed of the current snapshot: its channel metadata and its
    /// configured number of most recent posts, each entry carrying the
    /// post's absolute link; it fails exactly where the witnessed snapshot's
    /// feed base URL cannot be joined with some included post's URL.
    pub fn feed(&self) -> (r: Result<Feed, SiteError>)
        requires
            self.wf(),
        ensures
            exists|v: SiteContentV| #[trigger] site_view_consistent(v) && (r is Ok <==> forall|
                k: int,
            |
                0 <= k < spec_feed_count(v) ==> url_joinable(v.rss.url, v.posts[k].url)) && (
            r matches Result::Ok(f) ==> f.items@.map_values(|it: FeedItem| it@) == spec_feed_items(
                v.posts,
                v.rss.url,
                spec_feed_count(v),
            ) && f.title@ == v.rss.title && f.description@ == v.rss.description && f.link@
                == v.rss.url) && (r matches Result::Err(e) ==> e@ == SiteErrorV::FeedUrlError(
                v.rss.url,
            )),
    {
        let handle = self.content.acquire_read();
        let content = &handle.borrow().data;
        let r = feed_of_content(content);
        proof {
            assert(site_view_consistent(content@));
        }
        handle.release_read();
        r
    }
}

} // verus!
