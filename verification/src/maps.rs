//! The three lookup structures built once per rebuild: the redirect table
//! (alternate URL to canonical URL), the tag index (tag to ordered post
//! positions) and the URL table (canonical URL to position in a content
//! list). Each is an association list with distinct keys, viewed as a
//! mathematical `Map`; inserting an existing key overwrites its value.

use vstd::prelude::*;

verus! {

/// The map named by an association list, later entries overwriting earlier
/// ones; `vf` maps each stored value to its model.
pub open spec fn string_keyed_map<V, M>(s: Seq<(String, V)>, vf: spec_fn(V) -> M) -> Map<
    Seq<char>,
    M,
>
    decreases s.len(),
{
    if s.len() == 0 {
        Map::<Seq<char>, M>::empty()
    } else {
        string_keyed_map(s.drop_last(), vf).insert(s.last().0@, vf(s.last().1))
    }
}

/// No two entries share a key.
pub open spec fn keys_distinct<V>(s: Seq<(String, V)>) -> bool {
    forall|i: int, j: int| 0 <= i < j < s.len() ==> s[i].0@ != s[j].0@
}

proof fn lemma_map_domain<V, M>(s: Seq<(String, V)>, vf: spec_fn(V) -> M, k: Seq<char>)
    ensures
        string_keyed_map(s, vf).contains_key(k) <==> exists|i: int|
            0 <= i < s.len() && s[i].0@ == k,
    decreases s.len(),
{
    if s.len() > 0 {
        lemma_map_domain(s.drop_last(), vf, k);
        if string_keyed_map(s, vf).contains_key(k) {
            if s.last().0@ != k {
                let i = choose|i: int| 0 <= i < s.drop_last().len() && s.drop_last()[i].0@ == k;
                assert(s[i].0@ == k);
            }
        } else {
            assert(forall|i: int| 0 <= i < s.len() - 1 ==> s.drop_last()[i] == s[i]);
        }
    }
}

proof fn lemma_map_index<V, M>(s: Seq<(String, V)>, vf: spec_fn(V) -> M, i: int)
    requires
        keys_distinct(s),
        0 <= i < s.len(),
    ensures
        string_keyed_map(s, vf).contains_key(s[i].0@),
        string_keyed_map(s, vf)[s[i].0@] == vf(s[i].1),
    decreases s.len(),
{
    if i < s.len() - 1 {
        assert(forall|j: int| 0 <= j < s.len() - 1 ==> s.drop_last()[j] == s[j]);
        lemma_map_index(s.drop_last(), vf, i);
        assert(s[i].0@ != s.last().0@);
    }
}

proof fn lemma_map_update<V, M>(s: Seq<(String, V)>, vf: spec_fn(V) -> M, i: int, p: (String, V))
    requires
        keys_distinct(s),
        0 <= i < s.len(),
        p.0@ == s[i].0@,
    ensures
        string_keyed_map(s.update(i, p), vf) == string_keyed_map(s, vf).insert(p.0@, vf(p.1)),
        keys_distinct(s.update(i, p)),
    decreases s.len(),
{
    let su = s.update(i, p);
    assert(forall|j: int| 0 <= j < s.len() && j != i ==> su[j] == s[j]);
    if i == s.len() - 1 {
        assert(su.drop_last() =~= s.drop_last());
        assert(string_keyed_map(su, vf) =~= string_keyed_map(s, vf).insert(p.0@, vf(p.1)));
    } else {
        assert(su.drop_last() =~= s.drop_last().update(i, p));
        lemma_map_update(s.drop_last(), vf, i, p);
        assert(su.last() == s.last());
        assert(string_keyed_map(su, vf) =~= string_keyed_map(s.drop_last(), vf).insert(
            p.0@,
            vf(p.1),
        ).insert(s.last().0@, vf(s.last().1)));
        assert(s.last().0@ != p.0@);
        assert(string_keyed_map(s.drop_last(), vf).insert(p.0@, vf(p.1)).insert(
            s.last().0@,
            vf(s.last().1),
        ) =~= string_keyed_map(s, vf).insert(p.0@, vf(p.1)));
    }
}

/// The redirect table: maps each registered alternate (legacy) URL to the
/// canonical URL that superseded it.
pub struct AlternateUrlMappings {
    mapping: Vec<(String, String)>,
}

/// Adds one redirect per URL in `urls`, all pointing at `current`.
pub open spec fn spec_add_redirects(
    m: Map<Seq<char>, Seq<char>>,
    urls: Seq<Seq<char>>,
    current: Seq<char>,
) -> Map<Seq<char>, Seq<char>>
    decreases urls.len(),
{
    if urls.len() == 0 {
        m
    } else {
        spec_add_redirects(m.insert(urls[0], current), urls.drop_first(), current)
    }
}

impl View for AlternateUrlMappings {
    type V = Map<Seq<char>, Seq<char>>;

    closed spec fn view(&self) -> Map<Seq<char>, Seq<char>> {
        string_keyed_map(self.mapping@, |v: String| v@)
    }
}

impl AlternateUrlMappings {
    /// Well-formedness: no two entries share a key. Established by `new`
    /// and preserved by every method.
    pub closed spec fn wf(&self) -> bool {
        keys_distinct(self.mapping@)
    }

    pub fn new() -> (r: AlternateUrlMappings)
        ensures
            r@ == Map::<Seq<char>, Seq<char>>::empty(),
            r.wf(),
    {
        AlternateUrlMappings { mapping: Vec::new() }
    }

    /// Looks up the canonical URL registered for an alternate URL.
    pub fn get(&self, alternate_url: &String) -> (r: Option<&String>)
        requires
            self.wf(),
        ensures
            r is Some <==> self@.contains_key(alternate_url@),
            r is Some ==> r->0@ == self@[alternate_url@],
    {
        proof {
            lemma_map_domain(self.mapping@, |v: String| v@, alternate_url@);
        }
        let ghost m_start = self.mapping@;
        let n = self.mapping.len();
        let mut i: usize = 0;
        while i < n
            invariant
                i <= n,
                self.wf(),
                self.mapping@ == m_start,
                n == self.mapping@.len(),
                forall|k: int| 0 <= k < i ==> self.mapping@[k].0@ != alternate_url@,
            decreases n - i,
        {
            let entry = &self.mapping[i];
            if entry.0 == *alternate_url {
                proof {
                    lemma_map_index(self.mapping@, |v: String| v@, i as int);
                }
                return Option::Some(&entry.1);
            }
            i = i + 1;
        }
        Option::None
    }

    /// Registers (or overwrites) the redirect `alternate_url -> current_url`.
    pub fn add_mapping(&mut self, alternate_url: &String, current_url: &String)
        requires
            old(self).wf(),
        ensures
            final(self).wf(),
            final(self)@ == old(self)@.insert(alternate_url@, current_url@),
    {
        proof {
            lemma_map_domain(self.mapping@, |v: String| v@, alternate_url@);
        }
        let ghost m_start = self.mapping@;
        let n = self.mapping.len();
        let mut i: usize = 0;
        while i < n
            invariant
                i <= n,
                self.wf(),
                self.mapping@ == old(self).mapping@,
                self.mapping@ == m_start,
                n == self.mapping@.len(),
                forall|k: int| 0 <= k < i ==> self.mapping@[k].0@ != alternate_url@,
            decreases n - i,
        {
            if self.mapping[i].0 == *alternate_url {
                let pair = (alternate_url.clone(), current_url.clone());
                proof {
                    lemma_map_update(self.mapping@, |v: String| v@, i as int, pair);
                }
                self.mapping.set(i, pair);
                return ;
            }
            i = i + 1;
        }
        let ghost pre = self.mapping@;
        self.mapping.push((alternate_url.clone(), current_url.clone()));
        proof {
            assert(self.mapping@.drop_last() =~= pre);
            assert forall|a: int, b: int|
                0 <= a < b < self.mapping@.len() implies self.mapping@[a].0@
                != self.mapping@[b].0@ by {
                if b == self.mapping@.len() - 1 {
                    assert(self.mapping@[a] == pre[a]);
                }
            }
        }
    }

    /// Registers every URL in `alternate_urls` as a redirect to `current_url`.
    pub fn add_mappings(&mut self, alternate_urls: &[String], current_url: &String)
        requires
            old(self).wf(),
        ensures
            final(self).wf(),
            final(self)@ == spec_add_redirects(
                old(self)@,
                alternate_urls@.map_values(|s: String| s@),
                current_url@,
            ),
    {
        let ghost urls = alternate_urls@.map_values(|s: String| s@);
        let ghost m0 = self@;
        proof {
            assert(urls.skip(0) =~= urls);
        }
        let n = alternate_urls.len();
        let mut j: usize = 0;
        while j < n
            invariant
                j <= n,
                self.wf(),
                n == alternate_urls@.len(),
                urls == alternate_urls@.map_values(|s: String| s@),
                spec_add_redirects(self@, urls.skip(j as int), current_url@)
                    == spec_add_redirects(m0, urls, current_url@),
            decreases n - j,
        {
            self.add_mapping(&alternate_urls[j], current_url);
            proof {
                assert(urls.skip(j as int)[0] == urls[j as int]);
                assert(urls.skip(j as int).drop_first() =~= urls.skip(j as int + 1));
            }
            j = j + 1;
        }
        proof {
            assert(urls.skip(n as int) =~= Seq::<Seq<char>>::empty());
        }
    }
}

/// The tag index: maps each tag to the positions (into the date-ordered post
/// list) of the posts carrying it, in the order the positions were added.
pub struct PostsByTag {
    mapping: Vec<(String, Vec<usize>)>,
}

/// Appends `idx` to the position list of tag `t`, creating the list if the
/// tag is new.
pub open spec fn spec_add_tag(m: Map<Seq<char>, Seq<usize>>, idx: usize, t: Seq<char>) -> Map<
    Seq<char>,
    Seq<usize>,
> {
    m.insert(
        t,
        if m.contains_key(t) {
            m[t].push(idx)
        } else {
            seq![idx]
        },
    )
}

/// Appends `idx` to the position list of every tag in `tags`, in order.
pub open spec fn spec_add_tags(
    m: Map<Seq<char>, Seq<usize>>,
    idx: usize,
    tags: Seq<Seq<char>>,
) -> Map<Seq<char>, Seq<usize>>
    decreases tags.len(),
{
    if tags.len() == 0 {
        m
    } else {
        spec_add_tags(spec_add_tag(m, idx, tags[0]), idx, tags.drop_first())
    }
}

impl View for PostsByTag {
    type V = Map<Seq<char>, Seq<usize>>;

    closed spec fn view(&self) -> Map<Seq<char>, Seq<usize>> {
        string_keyed_map(self.mapping@, |v: Vec<usize>| v@)
    }
}

impl PostsByTag {
    /// Well-formedness: no two entries share a key. Established by `new`
    /// and preserved by every method.
    pub closed spec fn wf(&self) -> bool {
        keys_distinct(self.mapping@)
    }

    pub fn new() -> (r: PostsByTag)
        ensures
            r@ == Map::<Seq<char>, Seq<usize>>::empty(),
            r.wf(),
    {
        PostsByTag { mapping: Vec::new() }
    }

    /// Looks up the position list recorded for a tag.
    pub fn get(&self, tag: &String) -> (r: Option<&Vec<usize>>)
        requires
            self.wf(),
        ensures
            r is Some <==> self@.contains_key(tag@),
            r is Some ==> r->0@ == self@[tag@],
    {
        proof {
            lemma_map_domain(self.mapping@, |v: Vec<usize>| v@, tag@);
        }
        let ghost m_start = self.mapping@;
        let n = self.mapping.len();
        let mut i: usize = 0;
        while i < n
            invariant
                i <= n,
                self.wf(),
                self.mapping@ == m_start,
                n == self.mapping@.len(),
                forall|k: int| 0 <= k < i ==> self.mapping@[k].0@ != tag@,
            decreases n - i,
        {
            let entry = &self.mapping[i];
            if entry.0 == *tag {
                proof {
                    lemma_map_index(self.mapping@, |v: Vec<usize>| v@, i as int);
                }
                return Option::Some(&entry.1);
            }
            i = i + 1;
        }
        Option::None
    }

    /// Records that the post at position `post_index` carries `tag`.
    pub fn add_mapping(&mut self, post_index: usize, tag: &String)
        requires
            old(self).wf(),
        ensures
            final(self).wf(),
            final(self)@ == spec_add_tag(old(self)@, post_index, tag@),
    {
        proof {
            lemma_map_domain(self.mapping@, |v: Vec<usize>| v@, tag@);
        }
        let ghost m_start = self.mapping@;
        let n = self.mapping.len();
        let mut i: usize = 0;
        while i < n
            invariant
                i <= n,
                self.wf(),
                self.mapping@ == old(self).mapping@,
                self.mapping@ == m_start,
                n == self.mapping@.len(),
                forall|k: int| 0 <= k < i ==> self.mapping@[k].0@ != tag@,
            decreases n - i,
        {
            if self.mapping[i].0 == *tag {
                proof {
                    lemma_map_index(self.mapping@, |v: Vec<usize>| v@, i as int);
                }
                let ghost pre = self.mapping@;
                let entry = self.mapping.remove(i);
                let mut list = entry.1;
                list.push(post_index);
                let pair = (entry.0, list);
                proof {
                    assert(pre.subrange(0, i as int) + pre.subrange(
                        i as int + 1,
                        pre.len() as int,
                    ) =~= self.mapping@);
                }
                self.mapping.insert(i, pair);
                proof {
                    assert(self.mapping@ =~= pre.update(i as int, pair));
                    lemma_map_update(pre, |v: Vec<usize>| v@, i as int, pair);
                }
                return ;
            }
            i = i + 1;
        }
        let mut list: Vec<usize> = Vec::new();
        list.push(post_index);
        let ghost pre = self.mapping@;
        self.mapping.push((tag.clone(), list));
        proof {
            assert(self.mapping@.drop_last() =~= pre);
            assert(list@ =~= seq![post_index]);
            assert forall|a: int, b: int|
                0 <= a < b < self.mapping@.len() implies self.mapping@[a].0@
                != self.mapping@[b].0@ by {
                if b == self.mapping@.len() - 1 {
                    assert(self.mapping@[a] == pre[a]);
                }
            }
        }
    }

    /// Records that the post at position `post_index` carries every tag in
    /// `tags`, in order.
    pub fn add_mappings(&mut self, post_index: usize, tags: &[String])
        requires
            old(self).wf(),
        ensures
            final(self).wf(),
            final(self)@ == spec_add_tags(
                old(self)@,
                post_index,
                tags@.map_values(|s: String| s@),
            ),
    {
        let ghost tvs = tags@.map_values(|s: String| s@);
        let ghost m0 = self@;
        proof {
            assert(tvs.skip(0) =~= tvs);
        }
        let n = tags.len();
        let mut j: usize = 0;
        while j < n
            invariant
                j <= n,
                self.wf(),
                n == tags@.len(),
                tvs == tags@.map_values(|s: String| s@),
                spec_add_tags(self@, post_index, tvs.skip(j as int)) == spec_add_tags(
                    m0,
                    post_index,
                    tvs,
                ),
            decreases n - j,
        {
            self.add_mapping(post_index, &tags[j]);
            proof {
                assert(tvs.skip(j as int)[0] == tvs[j as int]);
                assert(tvs.skip(j as int).drop_first() =~= tvs.skip(j as int + 1));
            }
            j = j + 1;
        }
        proof {
            assert(tvs.skip(n as int) =~= Seq::<Seq<char>>::empty());
        }
    }
}

/// A canonical-URL table: maps each canonical URL to the position of its
/// content in a list.
pub struct UrlTable {
    mapping: Vec<(String, usize)>,
}

impl View for UrlTable {
    type V = Map<Seq<char>, usize>;

    closed spec fn view(&self) -> Map<Seq<char>, usize> {
        string_keyed_map(self.mapping@, |v: usize| v)
    }
}

impl UrlTable {
    /// Well-formedness: no two entries share a key. Established by `new`
    /// and preserved by every method.
    pub closed spec fn wf(&self) -> bool {
        keys_distinct(self.mapping@)
    }

    pub fn new() -> (r: UrlTable)
        ensures
            r@ == Map::<Seq<char>, usize>::empty(),
            r.wf(),
    {
        UrlTable { mapping: Vec::new() }
    }

    /// Looks up the position registered for a canonical URL.
    pub fn get(&self, url: &String) -> (r: Option<usize>)
        requires
            self.wf(),
        ensures
            r is Some <==> self@.contains_key(url@),
            r is Some ==> r->0 == self@[url@],
    {
        proof {
            lemma_map_domain(self.mapping@, |v: usize| v, url@);
        }
        let ghost m_start = self.mapping@;
        let n = self.mapping.len();
        let mut i: usize = 0;
        while i < n
            invariant
                i <= n,
                self.wf(),
                self.mapping@ == m_start,
                n == self.mapping@.len(),
                forall|k: int| 0 <= k < i ==> self.mapping@[k].0@ != url@,
            decreases n - i,
        {
            let entry = &self.mapping[i];
            if entry.0 == *url {
                proof {
                    lemma_map_index(self.mapping@, |v: usize| v, i as int);
                }
                return Option::Some(entry.1);
            }
            i = i + 1;
        }
        Option::None
    }

    /// Registers (or overwrites) the position for a canonical URL.
    pub fn insert(&mut self, url: &String, index: usize)
        requires
            old(self).wf(),
        ensures
            final(self).wf(),
            final(self)@ == old(self)@.insert(url@, index),
    {
        proof {
            lemma_map_domain(self.mapping@, |v: usize| v, url@);
        }
        let ghost m_start = self.mapping@;
        let n = self.mapping.len();
        let mut i: usize = 0;
        while i < n
            invariant
                i <= n,
                self.wf(),
                self.mapping@ == old(self).mapping@,
                self.mapping@ == m_start,
                n == self.mapping@.len(),
                forall|k: int| 0 <= k < i ==> self.mapping@[k].0@ != url@,
            decreases n - i,
        {
            if self.mapping[i].0 == *url {
                let pair = (url.clone(), index);
                proof {
                    lemma_map_update(self.mapping@, |v: usize| v, i as int, pair);
                }
                self.mapping.set(i, pair);
                return ;
            }
            i = i + 1;
        }
        let ghost pre = self.mapping@;
        self.mapping.push((url.clone(), index));
        proof {
            assert(self.mapping@.drop_last() =~= pre);
            assert forall|a: int, b: int|
                0 <= a < b < self.mapping@.len() implies self.mapping@[a].0@
                != self.mapping@[b].0@ by {
                if b == self.mapping@.len() - 1 {
                    assert(self.mapping@[a] == pre[a]);
                }
            }
        }
    }
}

} // verus!
