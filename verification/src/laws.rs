//! The stated properties of the build: the post list's ordering, the tag
//! index's soundness, completeness and order, the redirect table's origin,
//! and rebuild idempotence. Each is proved against the build's own
//! specification (`spec_build` and its two passes).

use vstd::prelude::*;
use crate::config::{PageRecV, PostRecV, RssV};
use crate::maps::{spec_add_redirects, spec_add_tag, spec_add_tags};
use crate::site::{
    ContentErrorV, PagesState, PostsState, PostV, SiteContentV, SiteErrorV, pages_state_empty,
    posts_state_from_pages, spec_build, spec_build_pages, spec_build_posts, spec_canonical_url, spec_page_of,
    spec_post_of,
};
use crate::sorting::{idx_le, lemma_sort_indices_facts, sorted_ids, spec_sort_indices};
use crate::timestamp::{Timestamp, ts_lt};

verus! {

/// The rendered body inside a successful rendering outcome.
pub open spec fn rendered_of(r: Result<Seq<char>, ContentErrorV>) -> Seq<char> {
    match r {
        Result::Ok(h) => h,
        Result::Err(_) => Seq::<char>::empty(),
    }
}

proof fn lemma_contains_drop_first<A>(s: Seq<A>, x: A)
    requires
        s.len() > 0,
    ensures
        s.contains(x) <==> (s[0] == x || s.drop_first().contains(x)),
{
    if s.contains(x) {
        let i = choose|i: int| 0 <= i < s.len() && s[i] == x;
        if i > 0 {
            assert(s.drop_first()[i - 1] == x);
        }
    }
    if s.drop_first().contains(x) {
        let i = choose|i: int| 0 <= i < s.drop_first().len() && s.drop_first()[i] == x;
        assert(s[i + 1] == x);
    }
}

proof fn lemma_add_redirects_facts(
    m: Map<Seq<char>, Seq<char>>,
    urls: Seq<Seq<char>>,
    cur: Seq<char>,
)
    ensures
        forall|a: Seq<char>| #[trigger]
            spec_add_redirects(m, urls, cur).contains_key(a) <==> (m.contains_key(a)
                || urls.contains(a)),
        forall|a: Seq<char>|
            urls.contains(a) ==> #[trigger] spec_add_redirects(m, urls, cur)[a] == cur,
        forall|a: Seq<char>|
            !urls.contains(a) && m.contains_key(a) ==> #[trigger] spec_add_redirects(
                m,
                urls,
                cur,
            )[a] == m[a],
    decreases urls.len(),
{
    if urls.len() > 0 {
        let m1 = m.insert(urls[0], cur);
        lemma_add_redirects_facts(m1, urls.drop_first(), cur);
        let m2 = spec_add_redirects(m, urls, cur);
        assert(m2 == spec_add_redirects(m1, urls.drop_first(), cur));
        assert forall|a: Seq<char>| true implies (#[trigger] m2.contains_key(a) <==> (
        m.contains_key(a) || urls.contains(a))) by {
            lemma_contains_drop_first(urls, a);
            assert(spec_add_redirects(m1, urls.drop_first(), cur).contains_key(a) <==> (
            m1.contains_key(a) || urls.drop_first().contains(a)));
        }
        assert forall|a: Seq<char>| urls.contains(a) implies #[trigger] m2[a] == cur by {
            lemma_contains_drop_first(urls, a);
            if urls.drop_first().contains(a) {
                assert(spec_add_redirects(m1, urls.drop_first(), cur)[a] == cur);
            } else {
                assert(a == urls[0]);
                assert(m1[a] == cur);
                assert(spec_add_redirects(m1, urls.drop_first(), cur)[a] == m1[a]);
            }
        }
        assert forall|a: Seq<char>| !urls.contains(a) && m.contains_key(a) implies #[trigger]
            m2[a] == m[a] by {
            lemma_contains_drop_first(urls, a);
            assert(a != urls[0]);
            assert(m1[a] == m[a]);
            assert(spec_add_redirects(m1, urls.drop_first(), cur)[a] == m1[a]);
        }
    }
}

/// The list a tag had before more positions were appended.
spec fn old_tag_list(m: Map<Seq<char>, Seq<usize>>, t: Seq<char>) -> Seq<usize> {
    if m.contains_key(t) {
        m[t]
    } else {
        Seq::<usize>::empty()
    }
}

proof fn lemma_add_tags_facts(m: Map<Seq<char>, Seq<usize>>, pos: usize, tags: Seq<Seq<char>>)
    ensures
        forall|t: Seq<char>| #[trigger]
            spec_add_tags(m, pos, tags).contains_key(t) <==> (m.contains_key(t) || tags.contains(
                t,
            )),
        forall|t: Seq<char>| #[trigger]
            spec_add_tags(m, pos, tags).contains_key(t) ==> {
                let nl = spec_add_tags(m, pos, tags)[t];
                let ol = old_tag_list(m, t);
                nl.len() >= ol.len() && (forall|k: int| 0 <= k < ol.len() ==> nl[k] == ol[k]) && (
                forall|k: int| ol.len() <= k < nl.len() ==> nl[k] == pos)
            },
        forall|t: Seq<char>|
            tags.contains(t) ==> #[trigger] spec_add_tags(m, pos, tags)[t].len() > old_tag_list(
                m,
                t,
            ).len(),
        forall|t: Seq<char>|
            !tags.contains(t) && m.contains_key(t) ==> #[trigger] spec_add_tags(m, pos, tags)[t]
                == m[t],
    decreases tags.len(),
{
    if tags.len() > 0 {
        let t0 = tags[0];
        let m1 = spec_add_tag(m, pos, t0);
        lemma_add_tags_facts(m1, pos, tags.drop_first());
        let m2 = spec_add_tags(m, pos, tags);
        assert(m2 == spec_add_tags(m1, pos, tags.drop_first()));
        assert(m1[t0] == old_tag_list(m, t0).push(pos));
        assert forall|t: Seq<char>| true implies (#[trigger] m2.contains_key(t) <==> (
        m.contains_key(t) || tags.contains(t))) by {
            lemma_contains_drop_first(tags, t);
        }
        assert forall|t: Seq<char>| #[trigger] m2.contains_key(t) implies {
            let nl = m2[t];
            let ol = old_tag_list(m, t);
            nl.len() >= ol.len() && (forall|k: int| 0 <= k < ol.len() ==> nl[k] == ol[k]) && (
            forall|k: int| ol.len() <= k < nl.len() ==> nl[k] == pos)
        } by {
            let nl = m2[t];
            let ol = old_tag_list(m, t);
            let ml = old_tag_list(m1, t);
            if t == t0 {
                assert(ml == ol.push(pos));
                assert(forall|k: int| 0 <= k < ml.len() ==> nl[k] == ml[k]);
                assert(forall|k: int| 0 <= k < ol.len() ==> nl[k] == ol[k]);
                assert(forall|k: int| ml.len() <= k < nl.len() ==> nl[k] == pos);
                assert(nl[ol.len() as int] == pos);
            } else {
                assert(ml == ol);
            }
        }
        assert forall|t: Seq<char>| tags.contains(t) implies #[trigger] m2[t].len()
            > old_tag_list(m, t).len() by {
            lemma_contains_drop_first(tags, t);
            if t == t0 {
                assert(old_tag_list(m1, t).len() == old_tag_list(m, t).len() + 1);
                assert(m2.contains_key(t));
                assert(m2[t].len() >= old_tag_list(m1, t).len());
            } else {
                assert(old_tag_list(m1, t) == old_tag_list(m, t));
            }
        }
        assert forall|t: Seq<char>| !tags.contains(t) && m.contains_key(t) implies #[trigger]
            m2[t] == m[t] by {
            lemma_contains_drop_first(tags, t);
            assert(t != t0);
            assert(m1.contains_key(t) && m1[t] == m[t]);
        }
    }
}


proof fn lemma_build_posts_shape(
    recs: Seq<PostRecV>,
    srcs: Seq<Result<Seq<char>, ContentErrorV>>,
    ord: Seq<usize>,
    st: PostsState,
    pages_by_url: Map<Seq<char>, usize>,
)
    ensures
        spec_build_posts(recs, srcs, ord, st, pages_by_url) matches Result::Ok(out) ==> ({
            &&& out.posts.len() == st.posts.len() + ord.len()
            &&& forall|k: int| 0 <= k < st.posts.len() ==> out.posts[k] == st.posts[k]
            &&& forall|k: int|
                0 <= k < ord.len() ==> out.posts[st.posts.len() + k] == spec_post_of(
                    recs[ord[k] as int],
                    rendered_of(srcs[ord[k] as int]),
                )
        }),
    decreases ord.len(),
{
    if ord.len() > 0 {
        let idx = ord[0] as int;
        let rec = recs[idx];
        match srcs[idx] {
            Result::Err(_) => {},
            Result::Ok(html) => {
                let url = spec_canonical_url(rec.date, rec.slug);
                if !(st.by_url.contains_key(url) || pages_by_url.contains_key(url)) {
                    let pos = st.posts.len() as usize;
                    let st2 = PostsState {
                        posts: st.posts.push(spec_post_of(rec, html)),
                        by_url: st.by_url.insert(url, pos),
                        redirects: spec_add_redirects(st.redirects, rec.alternate_urls, url),
                        tags: spec_add_tags(st.tags, pos, rec.tags),
                    };
                    lemma_build_posts_shape(recs, srcs, ord.drop_first(), st2, pages_by_url);
                    match spec_build_posts(recs, srcs, ord.drop_first(), st2, pages_by_url) {
                        Result::Err(_) => {},
                        Result::Ok(out) => {
                            assert(out.posts[st.posts.len() as int] == st2.posts[
                                st.posts.len() as int
                            ]);
                            assert(st2.posts[st.posts.len() as int] == spec_post_of(
                                rec,
                                rendered_of(srcs[idx]),
                            ));
                            assert forall|k: int| 0 <= k < ord.len() implies out.posts[
                                st.posts.len() + k
                            ] == spec_post_of(
                                recs[ord[k] as int],
                                rendered_of(srcs[ord[k] as int]),
                            ) by {
                                if k > 0 {
                                    assert(ord.drop_first()[k - 1] == ord[k]);
                                    assert(out.posts[st2.posts.len() + (k - 1)] == spec_post_of(
                                        recs[ord.drop_first()[k - 1] as int],
                                        rendered_of(srcs[ord.drop_first()[k - 1] as int]),
                                    ));
                                }
                            }
                        },
                    }
                }
            },
        }
    }
}

/// Soundness, completeness and order of a tag map with respect to a post
/// list: every listed position holds a post carrying the tag, every post
/// carrying a tag is listed under it, and each list is in position order.
pub open spec fn tags_consistent_with(m: Map<Seq<char>, Seq<usize>>, posts: Seq<PostV>) -> bool {
    &&& forall|t: Seq<char>, k: int|
        #![trigger m[t][k]]
        m.contains_key(t) && 0 <= k < m[t].len() ==> m[t][k] < posts.len() && posts[
            m[t][k] as int
        ].tags.contains(t)
    &&& forall|t: Seq<char>| #[trigger] m.contains_key(t) ==> m[t].len() > 0
    &&& forall|t: Seq<char>, i: int|
        #![trigger posts[i].tags.contains(t)]
        0 <= i < posts.len() && posts[i].tags.contains(t) ==> m.contains_key(t) && m[t].contains(
            i as usize,
        )
    &&& forall|t: Seq<char>, a: int, b: int|
        #![trigger m[t][a], m[t][b]]
        m.contains_key(t) && 0 <= a < b < m[t].len() ==> m[t][a] <= m[t][b]
}

proof fn lemma_build_posts_tag_index(
    recs: Seq<PostRecV>,
    srcs: Seq<Result<Seq<char>, ContentErrorV>>,
    ord: Seq<usize>,
    st: PostsState,
    pages_by_url: Map<Seq<char>, usize>,
)
    requires
        tags_consistent_with(st.tags, st.posts),
        st.posts.len() + ord.len() <= usize::MAX,
    ensures
        spec_build_posts(recs, srcs, ord, st, pages_by_url) matches Result::Ok(out)
            ==> tags_consistent_with(out.tags, out.posts),
    decreases ord.len(),
{
    if ord.len() > 0 {
        let idx = ord[0] as int;
        let rec = recs[idx];
        match srcs[idx] {
            Result::Err(_) => {},
            Result::Ok(html) => {
                let url = spec_canonical_url(rec.date, rec.slug);
                if !(st.by_url.contains_key(url) || pages_by_url.contains_key(url)) {
                    let pos = st.posts.len() as usize;
                    let newp = spec_post_of(rec, html);
                    let st2 = PostsState {
                        posts: st.posts.push(newp),
                        by_url: st.by_url.insert(url, pos),
                        redirects: spec_add_redirects(st.redirects, rec.alternate_urls, url),
                        tags: spec_add_tags(st.tags, pos, rec.tags),
                    };
                    lemma_add_tags_facts(st.tags, pos, rec.tags);
                    let m2 = st2.tags;
                    assert(newp.tags == rec.tags);
                    assert(forall|k: int|
                        0 <= k < st.posts.len() ==> st2.posts[k] == st.posts[k]);
                    assert(st2.posts[pos as int] == newp);
                    assert(tags_consistent_with(m2, st2.posts)) by {
                        assert forall|t: Seq<char>, k: int|
                            m2.contains_key(t) && 0 <= k < m2[t].len() implies #[trigger] m2[t][k]
                            < st2.posts.len() && st2.posts[m2[t][k] as int].tags.contains(t) by {
                            let ol = old_tag_list(st.tags, t);
                            if k < ol.len() {
                                assert(m2[t][k] == ol[k]);
                                assert(st.tags.contains_key(t));
                                assert(st.tags[t][k] < st.posts.len());
                            } else {
                                assert(m2[t][k] == pos);
                                if !rec.tags.contains(t) {
                                    if st.tags.contains_key(t) {
                                        assert(m2[t] == st.tags[t]);
                                        assert(false);
                                    } else {
                                        assert(!m2.contains_key(t));
                                        assert(false);
                                    }
                                }
                                assert(st2.posts[pos as int].tags.contains(t));
                            }
                        }
                        assert forall|t: Seq<char>| #[trigger] m2.contains_key(t) implies m2[
                            t
                        ].len() > 0 by {
                            if st.tags.contains_key(t) {
                                assert(m2[t].len() >= old_tag_list(st.tags, t).len());
                                assert(st.tags[t].len() > 0);
                            } else {
                                assert(rec.tags.contains(t));
                                assert(m2[t].len() > old_tag_list(st.tags, t).len());
                            }
                        }
                        assert forall|t: Seq<char>, i: int|
                            0 <= i < st2.posts.len() && #[trigger] st2.posts[i].tags.contains(t)
                            implies m2.contains_key(t) && m2[t].contains(i as usize) by {
                            let ol = old_tag_list(st.tags, t);
                            if i < st.posts.len() {
                                assert(st.posts[i].tags.contains(t));
                                assert(st.tags.contains_key(t) && st.tags[t].contains(i as usize));
                                assert(m2.contains_key(t));
                                let k = choose|k: int|
                                    0 <= k < st.tags[t].len() && st.tags[t][k] == i as usize;
                                assert(m2[t][k] == ol[k]);
                                assert(m2[t][k] == i as usize);
                                assert(m2[t].contains(i as usize));
                            } else {
                                assert(i == pos as int);
                                assert(rec.tags.contains(t));
                                assert(m2.contains_key(t));
                                assert(m2[t].len() > ol.len());
                                assert(m2[t][ol.len() as int] == pos);
                                assert(m2[t].contains(pos));
                            }
                        }
                        assert forall|t: Seq<char>, a: int, b: int|
                            m2.contains_key(t) && 0 <= a < b < m2[t].len() implies #[trigger] m2[
                            t][a] <= #[trigger] m2[t][b] by {
                            let ol = old_tag_list(st.tags, t);
                            if b < ol.len() {
                                assert(m2[t][a] == ol[a] && m2[t][b] == ol[b]);
                                assert(st.tags.contains_key(t));
                            } else if a < ol.len() {
                                assert(st.tags.contains_key(t));
                                assert(m2[t][a] == ol[a]);
                                assert(m2[t][b] == pos);
                                assert(ol[a] < st.posts.len());
                            } else {
                                assert(m2[t][a] == pos && m2[t][b] == pos);
                            }
                        }
                    }
                    lemma_build_posts_tag_index(recs, srcs, ord.drop_first(), st2, pages_by_url);
                }
            },
        }
    }
}

proof fn lemma_build_pages_redirects(
    pages: Seq<PageRecV>,
    srcs: Seq<Result<Seq<char>, ContentErrorV>>,
    st: PagesState,
)
    ensures
        spec_build_pages(pages, srcs, st) matches Result::Ok(out) ==> ({
            &&& forall|a: Seq<char>| #[trigger]
                out.redirects.contains_key(a) <==> (st.redirects.contains_key(a) || exists|i: int|
                    0 <= i < pages.len() && #[trigger] pages[i].alternate_urls.contains(a))
            &&& forall|a: Seq<char>| #[trigger]
                out.redirects.contains_key(a) ==> ((st.redirects.contains_key(a)
                    && out.redirects[a] == st.redirects[a]) || exists|i: int|
                    0 <= i < pages.len() && #[trigger] pages[i].alternate_urls.contains(a)
                        && out.redirects[a] == pages[i].url)
        }),
    decreases pages.len(),
{
    if pages.len() > 0 {
        let rec = pages[0];
        match srcs[0] {
            Result::Err(_) => {},
            Result::Ok(html) => {
                if !st.by_url.contains_key(rec.url) {
                    let st2 = PagesState {
                        pages: st.pages.push(spec_page_of(rec, html)),
                        by_url: st.by_url.insert(rec.url, st.pages.len() as usize),
                        redirects: spec_add_redirects(st.redirects, rec.alternate_urls, rec.url),
                    };
                    lemma_add_redirects_facts(st.redirects, rec.alternate_urls, rec.url);
                    lemma_build_pages_redirects(pages.drop_first(), srcs.drop_first(), st2);
                    match spec_build_pages(pages.drop_first(), srcs.drop_first(), st2) {
                        Result::Err(_) => {},
                        Result::Ok(out) => {
                            assert forall|a: Seq<char>| true implies (#[trigger]
                            out.redirects.contains_key(a) <==> (st.redirects.contains_key(a)
                                || exists|i: int|
                                0 <= i < pages.len() && #[trigger] pages[
                                i].alternate_urls.contains(a))) by {
                                if out.redirects.contains_key(a) {
                                    if !st.redirects.contains_key(a) {
                                        if st2.redirects.contains_key(a) {
                                            assert(rec.alternate_urls.contains(a));
                                            assert(pages[0].alternate_urls.contains(a));
                                        } else {
                                            let i = choose|i: int|
                                                0 <= i < pages.drop_first().len() && #[trigger]
                                                pages.drop_first()[i].alternate_urls.contains(a);
                                            assert(pages[i + 1].alternate_urls.contains(a));
                                        }
                                    }
                                } else {
                                    assert(!st2.redirects.contains_key(a));
                                    assert(!st.redirects.contains_key(a));
                                    assert(!rec.alternate_urls.contains(a));
                                    assert forall|i: int|
                                        0 <= i < pages.len() implies !(#[trigger] pages[
                                    i].alternate_urls.contains(a)) by {
                                        if i > 0 {
                                            assert(pages.drop_first()[i - 1] == pages[i]);
                                        }
                                    }
                                }
                            }
                            assert forall|a: Seq<char>| #[trigger]
                                out.redirects.contains_key(a) implies ((st.redirects.contains_key(
                                a,
                            ) && out.redirects[a] == st.redirects[a]) || exists|i: int|
                                0 <= i < pages.len() && #[trigger] pages[
                            i].alternate_urls.contains(a) && out.redirects[a] == pages[i].url) by {
                                if st2.redirects.contains_key(a) && out.redirects[a]
                                    == st2.redirects[a] {
                                    if rec.alternate_urls.contains(a) {
                                        assert(st2.redirects[a] == rec.url);
                                        assert(pages[0].alternate_urls.contains(a) && out.redirects[
                                        a] == pages[0].url);
                                    } else {
                                        if st.redirects.contains_key(a) {
                                            assert(st2.redirects[a] == st.redirects[a]);
                                        } else {
                                            assert(!st2.redirects.contains_key(a));
                                            assert(false);
                                        }
                                    }
                                } else {
                                    let i = choose|i: int|
                                        0 <= i < pages.drop_first().len() && #[trigger]
                                        pages.drop_first()[i].alternate_urls.contains(a)
                                            && out.redirects[a] == pages.drop_first()[i].url;
                                    assert(pages[i + 1].alternate_urls.contains(a) && out.redirects[
                                    a] == pages[i + 1].url);
                                }
                            }
                        },
                    }
                }
            },
        }
    }
}

proof fn lemma_build_posts_redirects(
    recs: Seq<PostRecV>,
    srcs: Seq<Result<Seq<char>, ContentErrorV>>,
    ord: Seq<usize>,
    st: PostsState,
    pages_by_url: Map<Seq<char>, usize>,
)
    ensures
        spec_build_posts(recs, srcs, ord, st, pages_by_url) matches Result::Ok(out) ==> ({
            &&& forall|a: Seq<char>| #[trigger]
                out.redirects.contains_key(a) <==> (st.redirects.contains_key(a) || exists|k: int|
                    0 <= k < ord.len() && #[trigger] recs[ord[k] as int].alternate_urls.contains(
                        a,
                    ))
            &&& forall|a: Seq<char>| #[trigger]
                out.redirects.contains_key(a) ==> ((st.redirects.contains_key(a)
                    && out.redirects[a] == st.redirects[a]) || exists|k: int|
                    0 <= k < ord.len() && #[trigger] recs[ord[k] as int].alternate_urls.contains(a)
                        && out.redirects[a] == spec_canonical_url(
                        recs[ord[k] as int].date,
                        recs[ord[k] as int].slug,
                    ))
        }),
    decreases ord.len(),
{
    if ord.len() > 0 {
        let idx = ord[0] as int;
        let rec = recs[idx];
        match srcs[idx] {
            Result::Err(_) => {},
            Result::Ok(html) => {
                let url = spec_canonical_url(rec.date, rec.slug);
                if !(st.by_url.contains_key(url) || pages_by_url.contains_key(url)) {
                    let pos = st.posts.len() as usize;
                    let st2 = PostsState {
                        posts: st.posts.push(spec_post_of(rec, html)),
                        by_url: st.by_url.insert(url, pos),
                        redirects: spec_add_redirects(st.redirects, rec.alternate_urls, url),
                        tags: spec_add_tags(st.tags, pos, rec.tags),
                    };
                    lemma_add_redirects_facts(st.redirects, rec.alternate_urls, url);
                    lemma_build_posts_redirects(recs, srcs, ord.drop_first(), st2, pages_by_url);
                    match spec_build_posts(recs, srcs, ord.drop_first(), st2, pages_by_url) {
                        Result::Err(_) => {},
                        Result::Ok(out) => {
                            assert forall|a: Seq<char>| true implies (#[trigger]
                            out.redirects.contains_key(a) <==> (st.redirects.contains_key(a)
                                || exists|k: int|
                                0 <= k < ord.len() && #[trigger] recs[
                            ord[k] as int].alternate_urls.contains(a))) by {
                                if out.redirects.contains_key(a) {
                                    if !st.redirects.contains_key(a) {
                                        if st2.redirects.contains_key(a) {
                                            assert(recs[ord[0] as int].alternate_urls.contains(a));
                                        } else {
                                            let k = choose|k: int|
                                                0 <= k < ord.drop_first().len() && #[trigger] recs[
                                                ord.drop_first()[k] as int].alternate_urls.contains(
                                                    a,
                                                );
                                            assert(ord[k + 1] == ord.drop_first()[k]);
                                            assert(recs[ord[k + 1] as int].alternate_urls.contains(
                                                a,
                                            ));
                                        }
                                    }
                                } else {
                                    assert(!st2.redirects.contains_key(a));
                                    assert(!st.redirects.contains_key(a));
                                    assert(!rec.alternate_urls.contains(a));
                                    assert forall|k: int|
                                        0 <= k < ord.len() implies !(#[trigger] recs[
                                    ord[k] as int].alternate_urls.contains(a)) by {
                                        if k > 0 {
                                            assert(ord.drop_first()[k - 1] == ord[k]);
                                        }
                                    }
                                }
                            }
                            assert forall|a: Seq<char>| #[trigger]
                                out.redirects.contains_key(a) implies ((st.redirects.contains_key(
                                a,
                            ) && out.redirects[a] == st.redirects[a]) || exists|k: int|
                                0 <= k < ord.len() && #[trigger] recs[
                            ord[k] as int].alternate_urls.contains(a) && out.redirects[a]
                                == spec_canonical_url(
                                recs[ord[k] as int].date,
                                recs[ord[k] as int].slug,
                            )) by {
                                if st2.redirects.contains_key(a) && out.redirects[a]
                                    == st2.redirects[a] {
                                    if rec.alternate_urls.contains(a) {
                                        assert(st2.redirects[a] == url);
                                        assert(recs[ord[0] as int].alternate_urls.contains(a)
                                            && out.redirects[a] == spec_canonical_url(
                                            recs[ord[0] as int].date,
                                            recs[ord[0] as int].slug,
                                        ));
                                    } else {
                                        if st.redirects.contains_key(a) {
                                            assert(st2.redirects[a] == st.redirects[a]);
                                        } else {
                                            assert(!st2.redirects.contains_key(a));
                                            assert(false);
                                        }
                                    }
                                } else {
                                    let k = choose|k: int|
                                        0 <= k < ord.drop_first().len() && #[trigger] recs[
                                        ord.drop_first()[k] as int].alternate_urls.contains(a)
                                            && out.redirects[a] == spec_canonical_url(
                                            recs[ord.drop_first()[k] as int].date,
                                            recs[ord.drop_first()[k] as int].slug,
                                        );
                                    assert(ord[k + 1] == ord.drop_first()[k]);
                                }
                            }
                        },
                    }
                }
            },
        }
    }
}


/// The order in which a build visits post records: positions sorted with
/// strictly later publish dates first and ties in record order.
pub open spec fn spec_post_order(posts: Seq<PostRecV>) -> Seq<usize> {
    spec_sort_indices(posts.map_values(|p: PostRecV| p.date), posts.len())
}

/// The built post list is sorted strictly descending by publish timestamp,
/// with ties broken stably by record order: entry `k` is the record at
/// `spec_post_order(posts)[k]`, and between two entries either the earlier
/// one has the strictly later date, or the dates are equal and the earlier
/// entry comes from the earlier record.
pub proof fn lemma_build_posts_sorted(
    pages: Seq<PageRecV>,
    page_srcs: Seq<Result<Seq<char>, ContentErrorV>>,
    posts: Seq<PostRecV>,
    post_srcs: Seq<Result<Seq<char>, ContentErrorV>>,
    rss: RssV,
    v: SiteContentV,
)
    requires
        spec_build(pages, page_srcs, posts, post_srcs, rss) == Result::<
            SiteContentV,
            SiteErrorV,
        >::Ok(v),
        posts.len() <= usize::MAX,
    ensures
        v.posts.len() == posts.len(),
        forall|k: int|
            0 <= k < posts.len() ==> v.posts[k] == spec_post_of(
                posts[spec_post_order(posts)[k] as int],
                rendered_of(post_srcs[spec_post_order(posts)[k] as int]),
            ),
        forall|i: int, j: int|
            0 <= i < j < v.posts.len() ==> (ts_lt(v.posts[j].date, v.posts[i].date) || (v.posts[
                i
            ].date == v.posts[j].date && spec_post_order(posts)[i] < spec_post_order(posts)[j])),
        forall|i: int| 0 <= i < posts.len() ==> #[trigger] spec_post_order(posts).contains(
            i as usize,
        ),
{
    let dates = posts.map_values(|p: PostRecV| p.date);
    let ord = spec_post_order(posts);
    lemma_sort_indices_facts(dates, posts.len());
    match spec_build_pages(pages, page_srcs, pages_state_empty()) {
        Result::Err(_) => {
            assert(false);
        },
        Result::Ok(pst) => {
            let st = posts_state_from_pages(pst);
            lemma_build_posts_shape(posts, post_srcs, ord, st, pst.by_url);
            match spec_build_posts(posts, post_srcs, ord, st, pst.by_url) {
                Result::Err(_) => {
                    assert(false);
                },
                Result::Ok(ost) => {
                    assert(v.posts == ost.posts);
                    assert(ord.len() == posts.len());
                    assert forall|k: int| 0 <= k < posts.len() implies v.posts[k] == spec_post_of(
                        posts[ord[k] as int],
                        rendered_of(post_srcs[ord[k] as int]),
                    ) by {
                        assert(ost.posts[st.posts.len() + k] == spec_post_of(
                            posts[ord[k] as int],
                            rendered_of(post_srcs[ord[k] as int]),
                        ));
                    }
                    assert forall|i: int, j: int| 0 <= i < j < v.posts.len() implies (ts_lt(
                        v.posts[j].date,
                        v.posts[i].date,
                    ) || (v.posts[i].date == v.posts[j].date && ord[i] < ord[j])) by {
                        assert(idx_le(dates, ord[i], ord[j]));
                        assert(ord[i] != ord[j]);
                        assert(ord.contains(ord[i]) && ord.contains(ord[j]));
                        assert(ord[i] < posts.len() && ord[j] < posts.len());
                        assert(dates[ord[i] as int] == posts[ord[i] as int].date);
                        assert(dates[ord[j] as int] == posts[ord[j] as int].date);
                        assert(v.posts[i].date == posts[ord[i] as int].date);
                        assert(v.posts[j].date == posts[ord[j] as int].date);
                    }
                },
            }
        },
    }
}

/// The tag index of a built snapshot is sound (every listed position holds
/// a post carrying the tag), complete (every post carrying a tag is listed
/// under it), and in position order, so each tag's posts keep the relative
/// order of the full date-ordered post list.
pub proof fn lemma_build_tag_index(
    pages: Seq<PageRecV>,
    page_srcs: Seq<Result<Seq<char>, ContentErrorV>>,
    posts: Seq<PostRecV>,
    post_srcs: Seq<Result<Seq<char>, ContentErrorV>>,
    rss: RssV,
    v: SiteContentV,
)
    requires
        spec_build(pages, page_srcs, posts, post_srcs, rss) == Result::<
            SiteContentV,
            SiteErrorV,
        >::Ok(v),
        posts.len() <= usize::MAX,
    ensures
        tags_consistent_with(v.tags, v.posts),
{
    let dates = posts.map_values(|p: PostRecV| p.date);
    let ord = spec_post_order(posts);
    lemma_sort_indices_facts(dates, posts.len());
    match spec_build_pages(pages, page_srcs, pages_state_empty()) {
        Result::Err(_) => {
            assert(false);
        },
        Result::Ok(pst) => {
            let st = posts_state_from_pages(pst);
            assert(tags_consistent_with(st.tags, st.posts));
            lemma_build_posts_tag_index(posts, post_srcs, ord, st, pst.by_url);
            match spec_build_posts(posts, post_srcs, ord, st, pst.by_url) {
                Result::Err(_) => {
                    assert(false);
                },
                Result::Ok(ost) => {
                    assert(v.tags == ost.tags && v.posts == ost.posts);
                },
            }
        },
    }
}

/// Every registered alternate URL redirects to the canonical URL of a
/// record that listed it: the redirect table's domain is exactly the
/// alternate URLs of the page and post records, and each entry's target is
/// the canonical URL of one such record.
pub proof fn lemma_build_redirects(
    pages: Seq<PageRecV>,
    page_srcs: Seq<Result<Seq<char>, ContentErrorV>>,
    posts: Seq<PostRecV>,
    post_srcs: Seq<Result<Seq<char>, ContentErrorV>>,
    rss: RssV,
    v: SiteContentV,
)
    requires
        spec_build(pages, page_srcs, posts, post_srcs, rss) == Result::<
            SiteContentV,
            SiteErrorV,
        >::Ok(v),
        posts.len() <= usize::MAX,
    ensures
        forall|a: Seq<char>| #[trigger]
            v.redirects.contains_key(a) <==> ((exists|i: int|
                0 <= i < pages.len() && #[trigger] pages[i].alternate_urls.contains(a)) || (exists|
                i: int,
            | 0 <= i < posts.len() && #[trigger] posts[i].alternate_urls.contains(a))),
        forall|a: Seq<char>| #[trigger]
            v.redirects.contains_key(a) ==> ((exists|i: int|
                0 <= i < pages.len() && #[trigger] pages[i].alternate_urls.contains(a)
                    && v.redirects[a] == pages[i].url) || (exists|i: int|
                0 <= i < posts.len() && #[trigger] posts[i].alternate_urls.contains(a)
                    && v.redirects[a] == spec_canonical_url(posts[i].date, posts[i].slug))),
{
    let dates = posts.map_values(|p: PostRecV| p.date);
    let ord = spec_post_order(posts);
    lemma_sort_indices_facts(dates, posts.len());
    lemma_build_pages_redirects(pages, page_srcs, pages_state_empty());
    match spec_build_pages(pages, page_srcs, pages_state_empty()) {
        Result::Err(_) => {
            assert(false);
        },
        Result::Ok(pst) => {
            let st = posts_state_from_pages(pst);
            lemma_build_posts_redirects(posts, post_srcs, ord, st, pst.by_url);
            match spec_build_posts(posts, post_srcs, ord, st, pst.by_url) {
                Result::Err(_) => {
                    assert(false);
                },
                Result::Ok(ost) => {
                    assert(v.redirects == ost.redirects);
                    assert forall|a: Seq<char>| true implies (#[trigger] v.redirects.contains_key(
                        a,
                    ) <==> ((exists|i: int|
                        0 <= i < pages.len() && #[trigger] pages[i].alternate_urls.contains(a)) || (
                    exists|i: int|
                        0 <= i < posts.len() && #[trigger] posts[i].alternate_urls.contains(
                            a,
                        )))) by {
                        if v.redirects.contains_key(a) {
                            if !st.redirects.contains_key(a) {
                                let k = choose|k: int|
                                    0 <= k < ord.len() && #[trigger] posts[
                                    ord[k] as int].alternate_urls.contains(a);
                                assert(ord.contains(ord[k]));
                                assert(0 <= ord[k] < posts.len());
                            }
                        } else {
                            assert(!st.redirects.contains_key(a));
                            assert forall|i: int| 0 <= i < posts.len() implies !(#[trigger] posts[
                            i].alternate_urls.contains(a)) by {
                                assert(ord.contains(i as usize));
                                let k = choose|k: int| 0 <= k < ord.len() && ord[k] == i as usize;
                                assert(posts[ord[k] as int] == posts[i]);
                            }
                        }
                    }
                    assert forall|a: Seq<char>| #[trigger]
                        v.redirects.contains_key(a) implies ((exists|i: int|
                        0 <= i < pages.len() && #[trigger] pages[i].alternate_urls.contains(a)
                            && v.redirects[a] == pages[i].url) || (exists|i: int|
                        0 <= i < posts.len() && #[trigger] posts[i].alternate_urls.contains(a)
                            && v.redirects[a] == spec_canonical_url(
                            posts[i].date,
                            posts[i].slug,
                        ))) by {
                        if st.redirects.contains_key(a) && v.redirects[a] == st.redirects[a] {
                        } else {
                            let k = choose|k: int|
                                0 <= k < ord.len() && #[trigger] posts[
                                ord[k] as int].alternate_urls.contains(a) && v.redirects[a]
                                    == spec_canonical_url(
                                    posts[ord[k] as int].date,
                                    posts[ord[k] as int].slug,
                                );
                            assert(ord.contains(ord[k]));
                            assert(0 <= ord[k] < posts.len());
                        }
                    }
                },
            }
        },
    }
}

/// Rebuild idempotence: the build is a deterministic function of its
/// inputs, so two builds on element-wise equal inputs yield element-wise
/// equal snapshots (or the same error).
pub proof fn lemma_rebuild_idempotent(
    pages: Seq<PageRecV>,
    page_srcs: Seq<Result<Seq<char>, ContentErrorV>>,
    posts: Seq<PostRecV>,
    post_srcs: Seq<Result<Seq<char>, ContentErrorV>>,
    rss: RssV,
    r1: Result<SiteContentV, SiteErrorV>,
    r2: Result<SiteContentV, SiteErrorV>,
)
    requires
        r1 == spec_build(pages, page_srcs, posts, post_srcs, rss),
        r2 == spec_build(pages, page_srcs, posts, post_srcs, rss),
    ensures
        r1 == r2,
{
}

} // verus!
