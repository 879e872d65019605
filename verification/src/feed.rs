//! The feed data of a snapshot: the channel metadata and the most recent
//! posts, each mapped to a feed entry whose absolute link is the feed's base
//! URL joined with the post's relative canonical URL. The join itself is the
//! url crate's.

use vstd::prelude::*;
use crate::site::{PostV, SiteContent, SiteContentV, SiteError, SiteErrorV};
use crate::timestamp::Timestamp;

verus! {

/// What joining `rel` onto the absolute base URL `base` yields; the result
/// is a function of the two strings alone.
pub uninterp spec fn joined_url_of(base: Seq<char>, rel: Seq<char>) -> Seq<char>;

/// Whether `base` parses as an absolute URL that accepts `rel` as a join.
pub uninterp spec fn url_joinable(base: Seq<char>, rel: Seq<char>) -> bool;

/// Relies on url::Url::parse, url::Url::join and url::Url's display: parsing
/// a base URL, joining a (typically relative) reference onto it, and writing
/// the result back out are deterministic in the two strings; where the base
/// does not parse or the join is rejected, nothing is returned.
#[verifier::external_body]
fn join_url(base: &String, rel: &String) -> (r: Option<String>)
    ensures
        r is Some <==> url_joinable(base@, rel@),
        r is Some ==> r->0@ == joined_url_of(base@, rel@),
{
    match url::Url::parse(base.as_str()) {
        Result::Err(_) => Option::None,
        Result::Ok(u) => match u.join(rel.as_str()) {
            Result::Err(_) => Option::None,
            Result::Ok(joined) => Option::Some(joined.to_string()),
        },
    }
}

/// One feed entry: the post's title, its absolute link, its rendered body
/// and its publish timestamp.
pub struct FeedItem {
    pub title: String,
    pub link: String,
    pub content_html: String,
    pub date: Timestamp,
}

/// Mathematical model of a feed entry.
#[verifier::ext_equal]
pub struct FeedItemV {
    pub title: Seq<char>,
    pub link: Seq<char>,
    pub content_html: Seq<char>,
    pub date: Timestamp,
}

impl View for FeedItem {
    type V = FeedItemV;

    open spec fn view(&self) -> FeedItemV {
        FeedItemV {
            title: self.title@,
            link: self.link@,
            content_html: self.content_html@,
            date: self.date,
        }
    }
}

/// The feed: channel metadata plus the entries.
pub struct Feed {
    pub title: String,
    pub description: String,
    pub link: String,
    pub items: Vec<FeedItem>,
}

/// How many posts the feed carries: the configured count, capped by how many
/// posts there are.
pub open spec fn spec_feed_count(v: SiteContentV) -> int {
    if v.rss.count < v.posts.len() {
        v.rss.count
    } else {
        v.posts.len() as int
    }
}

/// The feed entries: the first `n` posts of the date-ordered list, each with
/// its absolute link.
pub open spec fn spec_feed_items(posts: Seq<PostV>, base: Seq<char>, n: int) -> Seq<FeedItemV> {
    Seq::new(
        n as nat,
        |k: int|
            FeedItemV {
                title: posts[k].title,
                link: joined_url_of(base, posts[k].url),
                content_html: posts[k].content_html,
                date: posts[k].date,
            },
    )
}

/// Builds the feed of a snapshot: the configured number of most recent
/// posts (the head of the date-ordered list), each entry carrying the
/// post's title, body, date and absolute link. Fails exactly where the feed
/// base URL cannot be joined with some included post's URL.
pub fn feed_of_content(content: &SiteContent) -> (r: Result<Feed, SiteError>)
    requires
        content.wf(),
    ensures
        r is Ok <==> (forall|k: int|
            0 <= k < spec_feed_count(content@) ==> url_joinable(
                content@.rss.url,
                content@.posts[k].url,
            )),
        r matches Result::Ok(feed) ==> feed.items@.map_values(|it: FeedItem| it@)
            == spec_feed_items(content@.posts, content@.rss.url, spec_feed_count(content@))
            && feed.title@ == content@.rss.title && feed.description@ == content@.rss.description
            && feed.link@ == content@.rss.url,
        r matches Result::Err(e) ==> e@ == SiteErrorV::FeedUrlError(content@.rss.url),
{
    let posts_len = content.posts.len();
    let n = if content.rss.count < posts_len {
        content.rss.count
    } else {
        posts_len
    };
    let mut items: Vec<FeedItem> = Vec::new();
    let mut k: usize = 0;
    while k < n
        invariant
            k <= n,
            n as int == spec_feed_count(content@),
            n <= content.posts@.len(),
            items@.len() == k,
            forall|j: int| 0 <= j < k ==> url_joinable(content@.rss.url, content@.posts[j].url),
            forall|j: int| 0 <= j < k ==> items@[j]@ == spec_feed_items(
                content@.posts,
                content@.rss.url,
                spec_feed_count(content@),
            )[j],
        decreases n - k,
    {
        let post = &content.posts[k];
        match join_url(&content.rss.url, &post.url) {
            Option::None => {
                proof {
                    assert(post@ == content@.posts[k as int]);
                    assert(0 <= k < spec_feed_count(content@) && !url_joinable(
                        content@.rss.url,
                        content@.posts[k as int].url,
                    ));
                }
                return Result::Err(SiteError::FeedUrlError(content.rss.url.clone()));
            },
            Option::Some(link) => {
                let item = FeedItem {
                    title: post.title.clone(),
                    link,
                    content_html: post.content_html.clone(),
                    date: post.date,
                };
                items.push(item);
            },
        }
        k = k + 1;
    }
    proof {
        assert(items@.map_values(|it: FeedItem| it@) =~= spec_feed_items(
            content@.posts,
            content@.rss.url,
            spec_feed_count(content@),
        ));
    }
    Result::Ok(
        Feed {
            title: content.rss.title.clone(),
            description: content.rss.description.clone(),
            link: content.rss.url.clone(),
            items,
        },
    )
}

} // verus!
