//! The content index: fully rendered pages and posts together with every
//! lookup structure (URL tables, redirect table, tag index, feed metadata),
//! built in one pass from configuration records and already-rendered source
//! bodies, and queried read-only. A snapshot is never mutated after it is
//! built; it is replaced wholesale (see the service module).

use vstd::prelude::*;
use crate::config::{Pages, PageRecV, Posts, PostRecV, Rss, RssV};
use crate::config::clone_strings;
use crate::maps::{
    AlternateUrlMappings, PostsByTag, UrlTable, spec_add_redirects, spec_add_tag, spec_add_tags,
};
use crate::sorting::{sort_indices_by_date, spec_sort_indices};
use crate::timestamp::{Timestamp, append_padded_dec, padded_dec};

verus! {

/// A content file could not be turned into HTML: either it could not be read
/// (path, cause) or the rendering pipeline rejected it (path, cause).
#[derive(Debug)]
pub enum ContentError {
    IOError(String, String),
    RenderingError(String, String),
}

/// Mathematical model of a content failure.
#[verifier::ext_equal]
pub enum ContentErrorV {
    IOError(Seq<char>, Seq<char>),
    RenderingError(Seq<char>, Seq<char>),
}

impl View for ContentError {
    type V = ContentErrorV;

    open spec fn view(&self) -> ContentErrorV {
        match self {
            ContentError::IOError(p, c) => ContentErrorV::IOError(p@, c@),
            ContentError::RenderingError(p, c) => ContentErrorV::RenderingError(p@, c@),
        }
    }
}

/// Why a build was abandoned: a content failure, an ambiguous routing table
/// (two records claiming one canonical URL), or a feed base URL that cannot
/// be joined with a post URL.
#[derive(Debug)]
pub enum SiteError {
    ContentError(ContentError),
    DuplicateUrlError(String),
    FeedUrlError(String),
}

/// Mathematical model of a build failure.
#[verifier::ext_equal]
pub enum SiteErrorV {
    ContentError(ContentErrorV),
    DuplicateUrlError(Seq<char>),
    FeedUrlError(Seq<char>),
}

impl View for SiteError {
    type V = SiteErrorV;

    open spec fn view(&self) -> SiteErrorV {
        match self {
            SiteError::ContentError(e) => SiteErrorV::ContentError(e@),
            SiteError::DuplicateUrlError(u) => SiteErrorV::DuplicateUrlError(u@),
            SiteError::FeedUrlError(u) => SiteErrorV::FeedUrlError(u@),
        }
    }
}

fn clone_content_error(e: &ContentError) -> (r: ContentError)
    ensures
        r@ == e@,
{
    match e {
        ContentError::IOError(p, c) => ContentError::IOError(p.clone(), c.clone()),
        ContentError::RenderingError(p, c) => ContentError::RenderingError(p.clone(), c.clone()),
    }
}

/// The sequences named by a list of strings.
pub open spec fn strings_view(s: Seq<String>) -> Seq<Seq<char>> {
    s.map_values(|x: String| x@)
}

/// A built post: canonical URL, title, rendered body, publish timestamp and
/// tags. Immutable once built.
pub struct Post {
    pub url: String,
    pub title: String,
    pub content_html: String,
    pub date: Timestamp,
    pub tags: Vec<String>,
}

/// Mathematical model of a built post.
#[verifier::ext_equal]
pub struct PostV {
    pub url: Seq<char>,
    pub title: Seq<char>,
    pub content_html: Seq<char>,
    pub date: Timestamp,
    pub tags: Seq<Seq<char>>,
}

impl View for Post {
    type V = PostV;

    open spec fn view(&self) -> PostV {
        PostV {
            url: self.url@,
            title: self.title@,
            content_html: self.content_html@,
            date: self.date,
            tags: strings_view(self.tags@),
        }
    }
}

/// A built page: canonical URL, title and rendered body. Immutable once
/// built.
pub struct Page {
    pub url: String,
    pub title: String,
    pub content_html: String,
}

/// Mathematical model of a built page.
#[verifier::ext_equal]
pub struct PageV {
    pub url: Seq<char>,
    pub title: Seq<char>,
    pub content_html: Seq<char>,
}

impl View for Page {
    type V = PageV;

    open spec fn view(&self) -> PageV {
        PageV { url: self.url@, title: self.title@, content_html: self.content_html@ }
    }
}

/// Feed metadata, sourced once per rebuild from configuration.
pub struct RssMetadata {
    pub title: String,
    pub description: String,
    pub url: String,
    pub count: usize,
}

impl View for RssMetadata {
    type V = RssV;

    open spec fn view(&self) -> RssV {
        RssV {
            title: self.title@,
            description: self.description@,
            url: self.url@,
            count: self.count as int,
        }
    }
}

impl From<Rss> for RssMetadata {
    fn from(value: Rss) -> (r: RssMetadata) {
        RssMetadata {
            title: value.title,
            description: value.description,
            url: value.url,
            count: value.count,
        }
    }
}

impl vstd::std_specs::convert::FromSpecImpl<Rss> for RssMetadata {
    open spec fn obeys_from_spec() -> bool {
        true
    }

    open spec fn from_spec(t: Rss) -> RssMetadata {
        RssMetadata { title: t.title, description: t.description, url: t.url, count: t.count }
    }
}

/// The three mutually exclusive outcomes of resolving a URL: a page, a post,
/// or a permanent redirect to another URL.
pub enum Content<'a> {
    Page(&'a Page),
    Post(&'a Post),
    Redirect(String),
}

/// The canonical URL of a post: `/{year:04}/{month:02}/{day:02}/{slug}`.
pub open spec fn spec_canonical_url(date: Timestamp, slug: Seq<char>) -> Seq<char> {
    seq!['/'] + padded_dec(date.year as nat, 4) + seq!['/'] + padded_dec(date.month as nat, 2)
        + seq!['/'] + padded_dec(date.day as nat, 2) + seq!['/'] + slug
}

/// Derives a post's canonical URL from its publish date and slug.
pub fn canonical_url(date: &Timestamp, slug: &String) -> (r: String)
    ensures
        r@ == spec_canonical_url(*date, slug@),
{
    let mut out = String::new();
    out.append("/");
    append_padded_dec(&mut out, date.year, 4);
    out.append("/");
    append_padded_dec(&mut out, date.month, 2);
    out.append("/");
    append_padded_dec(&mut out, date.day, 2);
    out.append("/");
    out.append(slug.as_str());
    proof {
        reveal_strlit("/");
        assert(out@ =~= spec_canonical_url(*date, slug@));
    }
    out
}

impl Post {
    /// Builds a post from its configuration record and its already-rendered
    /// body: the canonical URL is derived from the publish date and slug, and
    /// missing tags become the empty list.
    pub fn try_from(value: &crate::config::Post, content_html: String) -> (r: Post)
        ensures
            r@ == spec_post_of(value@, content_html@),
    {
        let url = canonical_url(&value.date, &value.slug);
        let tags = match &value.tags {
            Option::None => Vec::new(),
            Option::Some(v) => clone_strings(v),
        };
        let r = Post {
            url,
            title: value.title.clone(),
            content_html,
            date: value.date,
            tags,
        };
        proof {
            assert(r@.tags =~= value@.tags);
        }
        r
    }
}

impl Page {
    /// Builds a page from its configuration record and its already-rendered
    /// body.
    pub fn try_from(value: &crate::config::Page, content_html: String) -> (r: Page)
        ensures
            r@ == spec_page_of(value@, content_html@),
    {
        Page { url: value.url.clone(), title: value.title.clone(), content_html }
    }
}

/// The post built from record `rec` and rendered body `html`.
pub open spec fn spec_post_of(rec: PostRecV, html: Seq<char>) -> PostV {
    PostV {
        url: spec_canonical_url(rec.date, rec.slug),
        title: rec.title,
        content_html: html,
        date: rec.date,
        tags: rec.tags,
    }
}

/// The page built from record `rec` and rendered body `html`.
pub open spec fn spec_page_of(rec: PageRecV, html: Seq<char>) -> PageV {
    PageV { url: rec.url, title: rec.title, content_html: html }
}

/// Mathematical model of a content index snapshot.
#[verifier::ext_equal]
pub struct SiteContentV {
    pub pages: Seq<PageV>,
    pub posts: Seq<PostV>,
    pub pages_by_url: Map<Seq<char>, usize>,
    pub posts_by_url: Map<Seq<char>, usize>,
    pub redirects: Map<Seq<char>, Seq<char>>,
    pub tags: Map<Seq<char>, Seq<usize>>,
    pub rss: RssV,
}

/// Intermediate state of the page pass of a build.
#[verifier::ext_equal]
pub struct PagesState {
    pub pages: Seq<PageV>,
    pub by_url: Map<Seq<char>, usize>,
    pub redirects: Map<Seq<char>, Seq<char>>,
}

/// Intermediate state of the post pass of a build.
#[verifier::ext_equal]
pub struct PostsState {
    pub posts: Seq<PostV>,
    pub by_url: Map<Seq<char>, usize>,
    pub redirects: Map<Seq<char>, Seq<char>>,
    pub tags: Map<Seq<char>, Seq<usize>>,
}

/// The page pass: for each record in order, a failed body aborts the build;
/// a canonical URL already claimed by an earlier page is ambiguous routing;
/// otherwise the page is appended, its URL registered, and its alternate
/// URLs added to the redirect table.
pub open spec fn spec_build_pages(
    pages: Seq<PageRecV>,
    srcs: Seq<Result<Seq<char>, ContentErrorV>>,
    st: PagesState,
) -> Result<PagesState, SiteErrorV>
    decreases pages.len(),
{
    if pages.len() == 0 {
        Result::Ok(st)
    } else {
        let rec = pages[0];
        match srcs[0] {
            Result::Err(e) => Result::Err(SiteErrorV::ContentError(e)),
            Result::Ok(html) => {
                if st.by_url.contains_key(rec.url) {
                    Result::Err(SiteErrorV::DuplicateUrlError(rec.url))
                } else {
                    let st2 = PagesState {
                        pages: st.pages.push(spec_page_of(rec, html)),
                        by_url: st.by_url.insert(rec.url, st.pages.len() as usize),
                        redirects: spec_add_redirects(st.redirects, rec.alternate_urls, rec.url),
                    };
                    spec_build_pages(pages.drop_first(), srcs.drop_first(), st2)
                }
            },
        }
    }
}

/// The post pass, visiting records in date order (`ord`): a failed body
/// aborts the build; a canonical URL already claimed by a post or a page is
/// ambiguous routing; otherwise the post is appended, its URL registered,
/// its position added to each of its tags' lists, and its alternate URLs
/// added to the redirect table.
pub open spec fn spec_build_posts(
    recs: Seq<PostRecV>,
    srcs: Seq<Result<Seq<char>, ContentErrorV>>,
    ord: Seq<usize>,
    st: PostsState,
    pages_by_url: Map<Seq<char>, usize>,
) -> Result<PostsState, SiteErrorV>
    decreases ord.len(),
{
    if ord.len() == 0 {
        Result::Ok(st)
    } else {
        let idx = ord[0] as int;
        let rec = recs[idx];
        match srcs[idx] {
            Result::Err(e) => Result::Err(SiteErrorV::ContentError(e)),
            Result::Ok(html) => {
                let url = spec_canonical_url(rec.date, rec.slug);
                if st.by_url.contains_key(url) || pages_by_url.contains_key(url) {
                    Result::Err(SiteErrorV::DuplicateUrlError(url))
                } else {
                    let pos = st.posts.len() as usize;
                    let st2 = PostsState {
                        posts: st.posts.push(spec_post_of(rec, html)),
                        by_url: st.by_url.insert(url, pos),
                        redirects: spec_add_redirects(st.redirects, rec.alternate_urls, url),
                        tags: spec_add_tags(st.tags, pos, rec.tags),
                    };
                    spec_build_posts(recs, srcs, ord.drop_first(), st2, pages_by_url)
                }
            },
        }
    }
}

/// The empty page-pass state.
pub open spec fn pages_state_empty() -> PagesState {
    PagesState {
        pages: Seq::<PageV>::empty(),
        by_url: Map::<Seq<char>, usize>::empty(),
        redirects: Map::<Seq<char>, Seq<char>>::empty(),
    }
}

/// The post-pass state that continues from a finished page pass.
pub open spec fn posts_state_from_pages(pst: PagesState) -> PostsState {
    PostsState {
        posts: Seq::<PostV>::empty(),
        by_url: Map::<Seq<char>, usize>::empty(),
        redirects: pst.redirects,
        tags: Map::<Seq<char>, Seq<usize>>::empty(),
    }
}

/// The whole build: the page pass, then the post pass over the records in
/// date order (later dates first, equal dates in record order), then the
/// assembled snapshot. Deterministic in its inputs.
pub open spec fn spec_build(
    pages: Seq<PageRecV>,
    page_srcs: Seq<Result<Seq<char>, ContentErrorV>>,
    posts: Seq<PostRecV>,
    post_srcs: Seq<Result<Seq<char>, ContentErrorV>>,
    rss: RssV,
) -> Result<SiteContentV, SiteErrorV> {
    match spec_build_pages(pages, page_srcs, pages_state_empty()) {
        Result::Err(e) => Result::Err(e),
        Result::Ok(pst) => {
            let dates = posts.map_values(|p: PostRecV| p.date);
            let ord = spec_sort_indices(dates, posts.len());
            match spec_build_posts(posts, post_srcs, ord, posts_state_from_pages(pst), pst.by_url) {
                Result::Err(e) => Result::Err(e),
                Result::Ok(ost) => Result::Ok(
                    SiteContentV {
                        pages: pst.pages,
                        posts: ost.posts,
                        pages_by_url: pst.by_url,
                        posts_by_url: ost.by_url,
                        redirects: ost.redirects,
                        tags: ost.tags,
                        rss,
                    },
                ),
            }
        },
    }
}

/// The models of a list of rendering outcomes.
pub open spec fn source_views(s: Seq<Result<String, ContentError>>) -> Seq<
    Result<Seq<char>, ContentErrorV>,
> {
    s.map_values(
        |x: Result<String, ContentError>|
            match x {
                Result::Ok(h) => Result::<Seq<char>, ContentErrorV>::Ok(h@),
                Result::Err(e) => Result::<Seq<char>, ContentErrorV>::Err(e@),
            },
    )
}

/// The model of a build result.
pub open spec fn build_result_v(r: Result<SiteContent, SiteError>) -> Result<
    SiteContentV,
    SiteErrorV,
> {
    match r {
        Result::Ok(c) => Result::Ok(c@),
        Result::Err(e) => Result::Err(e@),
    }
}

/// One immutable snapshot of the content index.
pub struct SiteContent {
    pub pages: Vec<Page>,
    pub posts: Vec<Post>,
    pub pages_by_url: UrlTable,
    pub posts_by_url: UrlTable,
    pub alternate_url_mappings: AlternateUrlMappings,
    pub post_tag_mappings: PostsByTag,
    pub rss: RssMetadata,
}

impl View for SiteContent {
    type V = SiteContentV;

    open spec fn view(&self) -> SiteContentV {
        SiteContentV {
            pages: self.pages@.map_values(|p: Page| p@),
            posts: self.posts@.map_values(|p: Post| p@),
            pages_by_url: self.pages_by_url@,
            posts_by_url: self.posts_by_url@,
            redirects: self.alternate_url_mappings@,
            tags: self.post_tag_mappings@,
            rss: self.rss@,
        }
    }
}

/// Self-consistency of a snapshot model: every URL-table entry points at a
/// content item that exists and carries that URL, and every tag-index entry
/// points into the post list.
pub open spec fn site_view_consistent(v: SiteContentV) -> bool {
    &&& forall|u: Seq<char>| #[trigger]
        v.pages_by_url.contains_key(u) ==> v.pages_by_url[u] < v.pages.len() && v.pages[
            v.pages_by_url[u] as int
        ].url == u
    &&& forall|u: Seq<char>| #[trigger]
        v.posts_by_url.contains_key(u) ==> v.posts_by_url[u] < v.posts.len() && v.posts[
            v.posts_by_url[u] as int
        ].url == u
    &&& forall|t: Seq<char>, k: int|
        #![trigger v.tags[t][k]]
        v.tags.contains_key(t) && 0 <= k < v.tags[t].len() ==> v.tags[t][k] < v.posts.len()
}

impl SiteContent {
    /// Well-formedness of a snapshot: its lookup structures are internally
    /// sound and agree with its content lists.
    pub open spec fn wf(&self) -> bool {
        &&& self.pages_by_url.wf()
        &&& self.posts_by_url.wf()
        &&& self.alternate_url_mappings.wf()
        &&& self.post_tag_mappings.wf()
        &&& site_view_consistent(self@)
    }

    /// Looks up a page by its canonical URL.
    pub fn get_page_by_url(&self, url: &String) -> (r: Option<&Page>)
        requires
            self.wf(),
        ensures
            r is Some <==> self@.pages_by_url.contains_key(url@),
            r is Some ==> r->0@ == self@.pages[self@.pages_by_url[url@] as int],
    {
        match self.pages_by_url.get(url) {
            Option::Some(index) => {
                proof {
                    assert(self@.pages_by_url.contains_key(url@));
                    assert(self@.pages.len() == self.pages@.len());
                }
                Option::Some(&self.pages[index])
            },
            Option::None => Option::None,
        }
    }

    /// Looks up a post by its canonical URL.
    pub fn get_post_by_url(&self, url: &String) -> (r: Option<&Post>)
        requires
            self.wf(),
        ensures
            r is Some <==> self@.posts_by_url.contains_key(url@),
            r is Some ==> r->0@ == self@.posts[self@.posts_by_url[url@] as int],
    {
        match self.posts_by_url.get(url) {
            Option::Some(index) => {
                proof {
                    assert(self@.posts_by_url.contains_key(url@));
                    assert(self@.posts.len() == self.posts@.len());
                }
                Option::Some(&self.posts[index])
            },
            Option::None => Option::None,
        }
    }

    /// Resolves a URL in fixed priority order: redirect table first, then
    /// the post table, then the page table; absent from all three, nothing.
    pub fn get_content_at<'a>(&'a self, url: &String) -> (r: Option<Content<'a>>)
        requires
            self.wf(),
        ensures
            r is Some <==> (self@.redirects.contains_key(url@) || self@.posts_by_url.contains_key(
                url@,
            ) || self@.pages_by_url.contains_key(url@)),
            self@.redirects.contains_key(url@) ==> (r matches Option::Some(Content::Redirect(u))
                && u@ == self@.redirects[url@]),
            !self@.redirects.contains_key(url@) && self@.posts_by_url.contains_key(url@) ==> (
            r matches Option::Some(Content::Post(p)) && p@ == self@.posts[self@.posts_by_url[url@] as int]),
            !self@.redirects.contains_key(url@) && !self@.posts_by_url.contains_key(url@)
                && self@.pages_by_url.contains_key(url@) ==> (r matches Option::Some(
                Content::Page(p),
            ) && p@ == self@.pages[self@.pages_by_url[url@] as int]),
    {
        if let Option::Some(new_url) = self.alternate_url_mappings.get(url) {
            Option::Some(Content::Redirect(new_url.clone()))
        } else if let Option::Some(post) = self.get_post_by_url(url) {
            Option::Some(Content::Post(post))
        } else if let Option::Some(page) = self.get_page_by_url(url) {
            Option::Some(Content::Page(page))
        } else {
            Option::None
        }
    }

    /// All posts, already in date order (later dates first); no sort happens
    /// at query time.
    pub fn get_posts_ordered_by_date(&self) -> (r: &[Post])
        ensures
            r@ == self.posts@,
    {
        self.posts.as_slice()
    }

    /// The posts carrying `tag`, in the tag index's order, which is the date
    /// order of the full post list.
    pub fn get_posts_with_tag_ordered_by_date<'a>(&'a self, tag: &String) -> (r: Vec<&'a Post>)
        requires
            self.wf(),
        ensures
            !self@.tags.contains_key(tag@) ==> r@.len() == 0,
            self@.tags.contains_key(tag@) ==> r@.len() == self@.tags[tag@].len() && forall|k: int|
                0 <= k < r@.len() ==> r@[k]@ == self@.posts[self@.tags[tag@][k] as int],
    {
        let mut result: Vec<&Post> = Vec::new();
        match self.post_tag_mappings.get(tag) {
            Option::Some(post_indices) => {
                let ghost ids = self@.tags[tag@];
                let m = post_indices.len();
                let mut j: usize = 0;
                while j < m
                    invariant
                        j <= m,
                        self.wf(),
                        self@.tags.contains_key(tag@),
                        post_indices@ == ids,
                        ids == self@.tags[tag@],
                        m == ids.len(),
                        result@.len() == j,
                        forall|k: int|
                            0 <= k < j ==> result@[k]@ == self@.posts[ids[k] as int],
                    decreases m - j,
                {
                    let idx = post_indices[j];
                    result.push(&self.posts[idx]);
                    j = j + 1;
                }
                result
            },
            Option::None => result,
        }
    }

    /// The most recent post: the head of the date-ordered post list.
    pub fn get_latest_post(&self) -> (r: Option<&Post>)
        ensures
            r is Some <==> self@.posts.len() > 0,
            r is Some ==> r->0@ == self@.posts[0],
    {
        if self.posts.len() > 0 {
            Option::Some(&self.posts[0])
        } else {
            Option::None
        }
    }
}


/// Every tag list points strictly below `n`.
spec fn tags_bounded(m: Map<Seq<char>, Seq<usize>>, n: int) -> bool {
    forall|t: Seq<char>, k: int|
        #![trigger m[t][k]]
        m.contains_key(t) && 0 <= k < m[t].len() ==> m[t][k] < n
}

proof fn lemma_add_tag_bounded(m: Map<Seq<char>, Seq<usize>>, pos: usize, t: Seq<char>, n: int)
    requires
        tags_bounded(m, n),
        pos < n,
    ensures
        tags_bounded(spec_add_tag(m, pos, t), n),
{
    let m1 = spec_add_tag(m, pos, t);
    assert forall|t2: Seq<char>, k: int|
        m1.contains_key(t2) && 0 <= k < m1[t2].len() implies #[trigger] m1[t2][k] < n by {
        if t2 == t {
            if m.contains_key(t) {
                if k < m[t].len() {
                    assert(m1[t2][k] == m[t][k]);
                } else {
                    assert(m1[t2][k] == pos);
                }
            } else {
                assert(m1[t2][k] == pos);
            }
        } else {
            assert(m1[t2] == m[t2]);
        }
    }
}

proof fn lemma_add_tags_bounded(
    m: Map<Seq<char>, Seq<usize>>,
    pos: usize,
    tags: Seq<Seq<char>>,
    n: int,
)
    requires
        tags_bounded(m, n),
        pos < n,
    ensures
        tags_bounded(spec_add_tags(m, pos, tags), n),
    decreases tags.len(),
{
    if tags.len() > 0 {
        lemma_add_tag_bounded(m, pos, tags[0], n);
        lemma_add_tags_bounded(spec_add_tag(m, pos, tags[0]), pos, tags.drop_first(), n);
    }
}

/// Consistency of a page-pass state: its URL table points at pages that
/// exist and carry that URL.
spec fn pages_state_consistent(st: PagesState) -> bool {
    forall|u: Seq<char>| #[trigger]
        st.by_url.contains_key(u) ==> st.by_url[u] < st.pages.len() && st.pages[
            st.by_url[u] as int
        ].url == u
}

/// Consistency of a post-pass state: its URL table points at posts that
/// exist and carry that URL, and its tag lists point into the post list.
spec fn posts_state_consistent(st: PostsState) -> bool {
    &&& forall|u: Seq<char>| #[trigger]
        st.by_url.contains_key(u) ==> st.by_url[u] < st.posts.len() && st.posts[
            st.by_url[u] as int
        ].url == u
    &&& tags_bounded(st.tags, st.posts.len() as int)
}

/// The page pass preserves consistency and appends one page per record.
proof fn lemma_build_pages_consistent(
    pages: Seq<PageRecV>,
    srcs: Seq<Result<Seq<char>, ContentErrorV>>,
    st: PagesState,
)
    requires
        pages_state_consistent(st),
        st.pages.len() + pages.len() <= usize::MAX,
    ensures
        spec_build_pages(pages, srcs, st) matches Result::Ok(out) ==> pages_state_consistent(out)
            && out.pages.len() == st.pages.len() + pages.len(),
    decreases pages.len(),
{
    if pages.len() > 0 {
        let rec = pages[0];
        match srcs[0] {
            Result::Err(_) => {},
            Result::Ok(html) => {
                if !st.by_url.contains_key(rec.url) {
                    let st2 = PagesState {
                        pages: st.pages.push(spec_page_of(rec, html)),
                        by_url: st.by_url.insert(rec.url, st.pages.len() as usize),
                        redirects: spec_add_redirects(st.redirects, rec.alternate_urls, rec.url),
                    };
                    assert(pages_state_consistent(st2)) by {
                        assert forall|u: Seq<char>| #[trigger]
                            st2.by_url.contains_key(u) implies st2.by_url[u] < st2.pages.len()
                            && st2.pages[st2.by_url[u] as int].url == u by {
                            if u == rec.url {
                                assert(st2.pages[st.pages.len() as int].url == rec.url);
                            } else {
                                assert(st.by_url.contains_key(u));
                                assert(st2.pages[st.by_url[u] as int] == st.pages[
                                    st.by_url[u] as int
                                ]);
                            }
                        }
                    }
                    lemma_build_pages_consistent(pages.drop_first(), srcs.drop_first(), st2);
                }
            },
        }
    }
}

/// The post pass preserves consistency and appends one post per visited
/// position.
proof fn lemma_build_posts_consistent(
    recs: Seq<PostRecV>,
    srcs: Seq<Result<Seq<char>, ContentErrorV>>,
    ord: Seq<usize>,
    st: PostsState,
    pages_by_url: Map<Seq<char>, usize>,
)
    requires
        posts_state_consistent(st),
        st.posts.len() + ord.len() <= usize::MAX,
    ensures
        spec_build_posts(recs, srcs, ord, st, pages_by_url) matches Result::Ok(out)
            ==> posts_state_consistent(out) && out.posts.len() == st.posts.len() + ord.len(),
    decreases ord.len(),
{
    if ord.len() > 0 {
        let idx = ord[0] as int;
        let rec = recs[idx];
        match srcs[idx] {
            Result::Err(_) => {},
            Result::Ok(html) => {
                let url = spec_canonical_url(rec.date, rec.slug);
                if !(st.by_url.contains_key(url) || pages_by_url.contains_key(url)) {
                    let pos = st.posts.len() as usize;
                    let st2 = PostsState {
                        posts: st.posts.push(spec_post_of(rec, html)),
                        by_url: st.by_url.insert(url, pos),
                        redirects: spec_add_redirects(st.redirects, rec.alternate_urls, url),
                        tags: spec_add_tags(st.tags, pos, rec.tags),
                    };
                    assert(posts_state_consistent(st2)) by {
                        assert forall|u: Seq<char>| #[trigger]
                            st2.by_url.contains_key(u) implies st2.by_url[u] < st2.posts.len()
                            && st2.posts[st2.by_url[u] as int].url == u by {
                            if u == url {
                                assert(st2.posts[pos as int].url == url);
                            } else {
                                assert(st.by_url.contains_key(u));
                                assert(st2.posts[st.by_url[u] as int] == st.posts[
                                    st.by_url[u] as int
                                ]);
                            }
                        }
                        assert(tags_bounded(st.tags, st2.posts.len() as int));
                        lemma_add_tags_bounded(st.tags, pos, rec.tags, st2.posts.len() as int);
                    }
                    lemma_build_posts_consistent(recs, srcs, ord.drop_first(), st2, pages_by_url);
                }
            },
        }
    }
}


impl SiteContent {
    /// Builds one snapshot from configuration records and the rendering
    /// outcome of each record's source file (`page_sources[i]` belongs to
    /// `pages_config.pages[i]`, and likewise for posts). Pages are processed
    /// in record order, then posts in date order (later dates first, equal
    /// dates in record order). The first failed rendering outcome aborts the
    /// build with its error; a canonical URL claimed twice aborts it as
    /// ambiguous routing. The result is exactly `spec_build` on the models
    /// of the inputs.
    pub fn new(
        pages_config: Pages,
        posts_config: Posts,
        page_sources: Vec<Result<String, ContentError>>,
        post_sources: Vec<Result<String, ContentError>>,
    ) -> (r: Result<SiteContent, SiteError>)
        requires
            page_sources@.len() == pages_config@.len(),
            post_sources@.len() == posts_config@.len(),
        ensures
            build_result_v(r) == spec_build(
                pages_config@,
                source_views(page_sources@),
                posts_config@,
                source_views(post_sources@),
                posts_config.rss@,
            ),
            r matches Result::Ok(c) ==> c.wf(),
    {
        let ghost pviews = pages_config@;
        let ghost psrcs = source_views(page_sources@);
        let ghost spec_pages_result = spec_build_pages(pviews, psrcs, pages_state_empty());

        let mut pages: Vec<Page> = Vec::new();
        let mut pages_by_url = UrlTable::new();
        let mut alternate_url_mappings = AlternateUrlMappings::new();

        proof {
            assert(pviews.skip(0) =~= pviews);
            assert(psrcs.skip(0) =~= psrcs);
            assert(pages@.map_values(|p: Page| p@) =~= Seq::<PageV>::empty());
            assert(PagesState {
                pages: pages@.map_values(|p: Page| p@),
                by_url: pages_by_url@,
                redirects: alternate_url_mappings@,
            } =~= pages_state_empty());
        }
        let np = pages_config.pages.len();
        let mut i: usize = 0;
        while i < np
            invariant
                i <= np,
                np == pages_config.pages@.len(),
                page_sources@.len() == np,
                pviews == pages_config@,
                psrcs == source_views(page_sources@),
                pages_by_url.wf(),
                alternate_url_mappings.wf(),
                pages@.len() == i,
                spec_pages_result == spec_build_pages(pviews, psrcs, pages_state_empty()),
                spec_build_pages(
                    pviews.skip(i as int),
                    psrcs.skip(i as int),
                    PagesState {
                        pages: pages@.map_values(|p: Page| p@),
                        by_url: pages_by_url@,
                        redirects: alternate_url_mappings@,
                    },
                ) == spec_pages_result,
            decreases np - i,
        {
            let ghost st_cur = PagesState {
                pages: pages@.map_values(|p: Page| p@),
                by_url: pages_by_url@,
                redirects: alternate_url_mappings@,
            };
            let rec = &pages_config.pages[i];
            proof {
                assert(pviews.skip(i as int)[0] == pviews[i as int]);
                assert(pviews[i as int] == rec@);
                assert(psrcs.skip(i as int)[0] == psrcs[i as int]);
                assert(pviews.skip(i as int).drop_first() =~= pviews.skip(i as int + 1));
                assert(psrcs.skip(i as int).drop_first() =~= psrcs.skip(i as int + 1));
                assert(pviews.skip(i as int).len() > 0);
            }
            match &page_sources[i] {
                Result::Err(e) => {
                    proof {
                        assert(psrcs[i as int] == Result::<Seq<char>, ContentErrorV>::Err(e@));
                        assert(spec_pages_result == Result::<PagesState, SiteErrorV>::Err(
                            SiteErrorV::ContentError(e@),
                        ));
                    }
                    return Result::Err(SiteError::ContentError(clone_content_error(e)));
                },
                Result::Ok(html) => {
                    proof {
                        assert(psrcs[i as int] == Result::<Seq<char>, ContentErrorV>::Ok(html@));
                    }
                    if pages_by_url.get(&rec.url).is_some() {
                        proof {
                            assert(st_cur.by_url.contains_key(rec@.url));
                            assert(spec_pages_result == Result::<PagesState, SiteErrorV>::Err(
                                SiteErrorV::DuplicateUrlError(rec@.url),
                            ));
                        }
                        return Result::Err(SiteError::DuplicateUrlError(rec.url.clone()));
                    }
                    let page = Page::try_from(rec, html.clone());
                    if let Option::Some(alts) = &rec.alternate_urls {
                        alternate_url_mappings.add_mappings(alts.as_slice(), &page.url);
                    }
                    pages_by_url.insert(&rec.url, i);
                    pages.push(page);
                    proof {
                        let st2 = PagesState {
                            pages: st_cur.pages.push(spec_page_of(rec@, html@)),
                            by_url: st_cur.by_url.insert(rec@.url, st_cur.pages.len() as usize),
                            redirects: spec_add_redirects(
                                st_cur.redirects,
                                rec@.alternate_urls,
                                rec@.url,
                            ),
                        };
                        assert(pages@.map_values(|p: Page| p@) =~= st2.pages);
                        assert(pages_by_url@ =~= st2.by_url);
                        if rec.alternate_urls is None {
                            assert(rec@.alternate_urls =~= Seq::<Seq<char>>::empty());
                            assert(alternate_url_mappings@ =~= st2.redirects);
                        } else {
                            assert(alternate_url_mappings@ =~= st2.redirects);
                        }
                        assert(PagesState {
                            pages: pages@.map_values(|p: Page| p@),
                            by_url: pages_by_url@,
                            redirects: alternate_url_mappings@,
                        } =~= st2);
                    }
                },
            }
            i = i + 1;
        }
        proof {
            assert(pviews.skip(np as int) =~= Seq::<PageRecV>::empty());
        }
        let ghost pst_final = PagesState {
            pages: pages@.map_values(|p: Page| p@),
            by_url: pages_by_url@,
            redirects: alternate_url_mappings@,
        };
        proof {
            assert(spec_pages_result == Result::<PagesState, SiteErrorV>::Ok(pst_final));
        }

        // The post pass: visit records in date order.
        let ghost povs = posts_config@;
        let ghost osrcs = source_views(post_sources@);
        let nq = posts_config.posts.len();
        let mut dates: Vec<Timestamp> = Vec::new();
        let mut d: usize = 0;
        while d < nq
            invariant
                d <= nq,
                nq == posts_config.posts@.len(),
                povs == posts_config@,
                dates@.len() == d,
                forall|k: int| 0 <= k < d ==> dates@[k] == povs[k].date,
            decreases nq - d,
        {
            dates.push(posts_config.posts[d].date);
            d = d + 1;
        }
        proof {
            assert(dates@ =~= povs.map_values(|p: PostRecV| p.date));
        }
        let ord = sort_indices_by_date(&dates);
        let ghost ordv = ord@;
        let ghost spec_posts_result = spec_build_posts(
            povs,
            osrcs,
            ordv,
            posts_state_from_pages(pst_final),
            pst_final.by_url,
        );

        let mut posts: Vec<Post> = Vec::new();
        let mut posts_by_url = UrlTable::new();
        let mut post_tag_mappings = PostsByTag::new();

        proof {
            assert(ordv.skip(0) =~= ordv);
            assert(posts@.map_values(|p: Post| p@) =~= Seq::<PostV>::empty());
            assert(PostsState {
                posts: posts@.map_values(|p: Post| p@),
                by_url: posts_by_url@,
                redirects: alternate_url_mappings@,
                tags: post_tag_mappings@,
            } =~= posts_state_from_pages(pst_final));
        }
        let no = ord.len();
        let mut k: usize = 0;
        while k < no
            invariant
                k <= no,
                no == ordv.len(),
                nq == posts_config.posts@.len(),
                post_sources@.len() == nq,
                povs == posts_config@,
                osrcs == source_views(post_sources@),
                forall|j: int| 0 <= j < ordv.len() ==> ordv[j] < nq,
                ord@ == ordv,
                posts_by_url.wf(),
                post_tag_mappings.wf(),
                alternate_url_mappings.wf(),
                posts@.len() == k,
                pages@.map_values(|p: Page| p@) == pst_final.pages,
                pages_by_url@ == pst_final.by_url,
                pages_by_url.wf(),
                spec_build_pages(pviews, psrcs, pages_state_empty()) == Result::<
                    PagesState,
                    SiteErrorV,
                >::Ok(pst_final),
                pviews == pages_config@,
                psrcs == source_views(page_sources@),
                ordv == spec_sort_indices(povs.map_values(|p: PostRecV| p.date), nq as nat),
                spec_posts_result == spec_build_posts(
                    povs,
                    osrcs,
                    ordv,
                    posts_state_from_pages(pst_final),
                    pst_final.by_url,
                ),
                spec_build_posts(
                    povs,
                    osrcs,
                    ordv.skip(k as int),
                    PostsState {
                        posts: posts@.map_values(|p: Post| p@),
                        by_url: posts_by_url@,
                        redirects: alternate_url_mappings@,
                        tags: post_tag_mappings@,
                    },
                    pst_final.by_url,
                ) == spec_posts_result,
            decreases no - k,
        {
            let ghost st_cur = PostsState {
                posts: posts@.map_values(|p: Post| p@),
                by_url: posts_by_url@,
                redirects: alternate_url_mappings@,
                tags: post_tag_mappings@,
            };
            let idx = ord[k];
            let rec = &posts_config.posts[idx];
            proof {
                assert(ordv.skip(k as int)[0] == ordv[k as int]);
                assert(ordv.skip(k as int).drop_first() =~= ordv.skip(k as int + 1));
                assert(povs[idx as int] == rec@);
                assert(osrcs[idx as int] == source_views(post_sources@)[idx as int]);
            }
            match &post_sources[idx] {
                Result::Err(e) => {
                    proof {
                        assert(osrcs[idx as int] == Result::<Seq<char>, ContentErrorV>::Err(e@));
                        assert(spec_posts_result == Result::<PostsState, SiteErrorV>::Err(
                            SiteErrorV::ContentError(e@),
                        ));
                    }
                    return Result::Err(SiteError::ContentError(clone_content_error(e)));
                },
                Result::Ok(html) => {
                    proof {
                        assert(osrcs[idx as int] == Result::<Seq<char>, ContentErrorV>::Ok(html@));
                    }
                    let url = canonical_url(&rec.date, &rec.slug);
                    let dup = match posts_by_url.get(&url) {
                        Option::Some(_) => true,
                        Option::None => match pages_by_url.get(&url) {
                            Option::Some(_) => true,
                            Option::None => false,
                        },
                    };
                    if dup {
                        proof {
                            assert(spec_posts_result == Result::<PostsState, SiteErrorV>::Err(
                                SiteErrorV::DuplicateUrlError(url@),
                            ));
                        }
                        return Result::Err(SiteError::DuplicateUrlError(url));
                    }
                    let post = Post::try_from(rec, html.clone());
                    posts_by_url.insert(&post.url, k);
                    post_tag_mappings.add_mappings(k, post.tags.as_slice());
                    if let Option::Some(alts) = &rec.alternate_urls {
                        alternate_url_mappings.add_mappings(alts.as_slice(), &post.url);
                    }
                    posts.push(post);
                    proof {
                        let st2 = PostsState {
                            posts: st_cur.posts.push(spec_post_of(rec@, html@)),
                            by_url: st_cur.by_url.insert(url@, st_cur.posts.len() as usize),
                            redirects: spec_add_redirects(
                                st_cur.redirects,
                                rec@.alternate_urls,
                                url@,
                            ),
                            tags: spec_add_tags(
                                st_cur.tags,
                                st_cur.posts.len() as usize,
                                rec@.tags,
                            ),
                        };
                        assert(post@.url == url@);
                        assert(posts@.map_values(|p: Post| p@) =~= st2.posts);
                        assert(posts_by_url@ =~= st2.by_url);
                        assert(strings_view(post.tags@) == rec@.tags);
                        assert(post_tag_mappings@ =~= st2.tags);
                        if rec.alternate_urls is None {
                            assert(rec@.alternate_urls =~= Seq::<Seq<char>>::empty());
                            assert(alternate_url_mappings@ =~= st2.redirects);
                        } else {
                            assert(alternate_url_mappings@ =~= st2.redirects);
                        }
                        assert(PostsState {
                            posts: posts@.map_values(|p: Post| p@),
                            by_url: posts_by_url@,
                            redirects: alternate_url_mappings@,
                            tags: post_tag_mappings@,
                        } =~= st2);
                    }
                },
            }
            k = k + 1;
        }
        proof {
            assert(ordv.skip(no as int) =~= Seq::<usize>::empty());
        }
        let ghost ost_final = PostsState {
            posts: posts@.map_values(|p: Post| p@),
            by_url: posts_by_url@,
            redirects: alternate_url_mappings@,
            tags: post_tag_mappings@,
        };
        proof {
            assert(spec_posts_result == Result::<PostsState, SiteErrorV>::Ok(ost_final));
        }

        let rss = RssMetadata::from(posts_config.rss);
        let content = SiteContent {
            pages,
            posts,
            pages_by_url,
            posts_by_url,
            alternate_url_mappings,
            post_tag_mappings,
            rss,
        };
        proof {
            assert(content@ =~= SiteContentV {
                pages: pst_final.pages,
                posts: ost_final.posts,
                pages_by_url: pst_final.by_url,
                posts_by_url: ost_final.by_url,
                redirects: ost_final.redirects,
                tags: ost_final.tags,
                rss: posts_config.rss@,
            });
            assert(pages_state_consistent(pages_state_empty()));
            lemma_build_pages_consistent(pviews, psrcs, pages_state_empty());
            assert(posts_state_consistent(posts_state_from_pages(pst_final)));
            lemma_build_posts_consistent(
                povs,
                osrcs,
                ordv,
                posts_state_from_pages(pst_final),
                pst_final.by_url,
            );
            assert(site_view_consistent(content@));
        }
        Result::Ok(content)
    }
}

} // verus!
