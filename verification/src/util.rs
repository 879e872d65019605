//! Small string helpers shared by the configuration loader and the index
//! builder: URL normalization and path joining over plain strings.

use vstd::prelude::*;

verus! {

/// `s` without a single trailing `/`, if one is present.
pub open spec fn spec_drop_trailing_slash(s: Seq<char>) -> Seq<char> {
    if s.len() > 0 && s.last() == '/' {
        s.drop_last()
    } else {
        s
    }
}

/// Removes one trailing `/` from `s`, so that `/about/` and `/about` name the
/// same route.
pub fn drop_trailing_slash(s: &mut String)
    ensures
        final(s)@ == spec_drop_trailing_slash(old(s)@),
{
    let n = s.as_str().unicode_len();
    if n > 0 {
        let last = s.as_str().get_char(n - 1);
        if last == '/' {
            let out = s.as_str().substring_char(0, n - 1).to_owned();
            proof {
                assert(out@ =~= s@.drop_last());
            }
            *s = out;
        }
    }
}

/// The library's path-joining rule, mirroring how a path buffer joins
/// segments: an absolute `rel` replaces `root`; otherwise the two are joined
/// with exactly one `/` between them.
pub open spec fn spec_join_path(root: Seq<char>, rel: Seq<char>) -> Seq<char> {
    if rel.len() > 0 && rel[0] == '/' {
        rel
    } else if root.len() == 0 {
        rel
    } else if root.last() == '/' {
        root + rel
    } else {
        root + seq!['/'] + rel
    }
}

/// Joins a filesystem root and a relative path into one path string.
pub fn join_path(root: &String, rel: &String) -> (r: String)
    ensures
        r@ == spec_join_path(root@, rel@),
{
    let rel_len = rel.as_str().unicode_len();
    if rel_len > 0 && rel.as_str().get_char(0) == '/' {
        return rel.clone();
    }
    let root_len = root.as_str().unicode_len();
    if root_len == 0 {
        return rel.clone();
    }
    let mut out = root.clone();
    if root.as_str().get_char(root_len - 1) != '/' {
        out.append("/");
        proof {
            reveal_strlit("/");
            assert(out@ =~= root@ + seq!['/']);
        }
    }
    out.append(rel.as_str());
    proof {
        if root@.last() == '/' {
            assert(out@ =~= root@ + rel@);
        } else {
            assert(out@ =~= root@ + seq!['/'] + rel@);
        }
    }
    out
}


/// The index of the last occurrence of `c` in `s`, if any.
pub open spec fn spec_last_index_of(s: Seq<char>, c: char) -> Option<int>
    decreases s.len(),
{
    if s.len() == 0 {
        Option::None
    } else if s.last() == c {
        Option::Some(s.len() - 1)
    } else {
        spec_last_index_of(s.drop_last(), c)
    }
}

/// The file name of a path: everything after the last `/`, or the whole
/// path if it has none.
pub open spec fn spec_file_name(s: Seq<char>) -> Seq<char> {
    match spec_last_index_of(s, '/') {
        Option::Some(p) => s.skip(p + 1),
        Option::None => s,
    }
}

/// The extension of a path: the part of its file name after the last `.`,
/// unless that dot is the file name's leading character.
pub open spec fn spec_extension(s: Seq<char>) -> Option<Seq<char>> {
    let name = spec_file_name(s);
    match spec_last_index_of(name, '.') {
        Option::Some(p) => if p > 0 {
            Option::Some(name.skip(p + 1))
        } else {
            Option::None
        },
        Option::None => Option::None,
    }
}

/// Whether a source path names a markdown file: its extension is `md`.
pub open spec fn spec_is_markdown_source(s: Seq<char>) -> bool {
    spec_extension(s) == Option::Some(seq!['m', 'd'])
}

proof fn lemma_last_index_found(s: Seq<char>, c: char, p: int)
    requires
        0 <= p < s.len(),
        s[p] == c,
        forall|k: int| p < k < s.len() ==> s[k] != c,
    ensures
        spec_last_index_of(s, c) == Option::Some(p),
    decreases s.len(),
{
    if p == s.len() - 1 {
    } else {
        assert(s.last() != c);
        assert(forall|k: int| 0 <= k < s.len() - 1 ==> s.drop_last()[k] == s[k]);
        lemma_last_index_found(s.drop_last(), c, p);
    }
}

proof fn lemma_last_index_absent(s: Seq<char>, c: char)
    requires
        forall|k: int| 0 <= k < s.len() ==> s[k] != c,
    ensures
        spec_last_index_of(s, c) == Option::<int>::None,
    decreases s.len(),
{
    if s.len() > 0 {
        assert(forall|k: int| 0 <= k < s.len() - 1 ==> s.drop_last()[k] == s[k]);
        lemma_last_index_absent(s.drop_last(), c);
    }
}

proof fn lemma_last_index_skip(s: Seq<char>, c: char, m: int)
    requires
        0 <= m <= s.len(),
    ensures
        spec_last_index_of(s.skip(m), c) == match spec_last_index_of(s, c) {
            Option::Some(p) => if p >= m {
                Option::Some(p - m)
            } else {
                Option::<int>::None
            },
            Option::None => Option::<int>::None,
        },
    decreases s.len(),
{
    if m == s.len() {
        assert(s.skip(m) =~= Seq::<char>::empty());
        match spec_last_index_of(s, c) {
            Option::Some(p) => {
                lemma_last_index_in_range(s, c);
            },
            Option::None => {},
        }
    } else {
        assert(s.skip(m).last() == s.last());
        if s.last() == c {
            assert(s.skip(m).len() == s.len() - m);
        } else {
            assert(s.skip(m).drop_last() =~= s.drop_last().skip(m));
            lemma_last_index_skip(s.drop_last(), c, m);
        }
    }
}

proof fn lemma_last_index_in_range(s: Seq<char>, c: char)
    ensures
        match spec_last_index_of(s, c) {
            Option::Some(p) => 0 <= p < s.len() && s[p] == c,
            Option::None => true,
        },
    decreases s.len(),
{
    if s.len() > 0 && s.last() != c {
        lemma_last_index_in_range(s.drop_last(), c);
    }
}

/// Decides whether a source path names a markdown file, the way the
/// standard library reads extensions: the file name's part after its last
/// dot, a leading dot not counting.
pub fn is_markdown_source(path: &String) -> (r: bool)
    ensures
        r == spec_is_markdown_source(path@),
{
    let n = path.as_str().unicode_len();
    let ghost s = path@;
    let mut j: usize = n;
    loop
        invariant_except_break
            0 <= j <= n,
            n == s.len(),
            s == path@,
            forall|k: int| j <= k < n ==> s[k] != '.' && s[k] != '/',
        ensures
            j <= n,
            n == s.len(),
            s == path@,
            forall|k: int| j <= k < n ==> s[k] != '.' && s[k] != '/',
            j > 0 ==> (s[j - 1] == '.' || s[j - 1] == '/'),
        decreases j,
    {
        if j == 0 {
            break ;
        }
        let c = path.as_str().get_char(j - 1);
        if c == '.' || c == '/' {
            break ;
        }
        j = j - 1;
    }
    if j == 0 {
        proof {
            lemma_last_index_absent(s, '.');
            lemma_last_index_absent(s, '/');
        }
        return false;
    }
    let c = path.as_str().get_char(j - 1);
    if c == '/' {
        proof {
            lemma_last_index_found(s, '/', j as int - 1);
            assert(forall|k: int|
                0 <= k < s.skip(j as int).len() ==> s.skip(j as int)[k] != '.');
            lemma_last_index_absent(s.skip(j as int), '.');
        }
        return false;
    }
    proof {
        assert(c == '.');
        lemma_last_index_found(s, '.', j as int - 1);
    }
    if j == 1 || path.as_str().get_char(j - 2) == '/' {
        proof {
            let name = spec_file_name(s);
            if j == 1 {
                match spec_last_index_of(s, '/') {
                    Option::Some(q) => {
                        lemma_last_index_in_range(s, '/');
                        assert(false);
                    },
                    Option::None => {},
                }
                lemma_last_index_skip(s, '.', 0);
                assert(s.skip(0) =~= s);
                assert(name == s);
            } else {
                lemma_last_index_found(s, '/', j as int - 2);
                lemma_last_index_skip(s, '.', j as int - 1);
            }
        }
        return false;
    }
    proof {
        let q = spec_last_index_of(s, '/');
        match q {
            Option::Some(qp) => {
                lemma_last_index_in_range(s, '/');
                assert(s[qp] == '/');
                assert(qp < j as int - 1);
                assert(qp != j as int - 2);
                lemma_last_index_skip(s, '.', qp + 1);
                assert(spec_last_index_of(spec_file_name(s), '.') == Option::Some(
                    j as int - 1 - (qp + 1),
                ));
                assert(j as int - 1 - (qp + 1) > 0);
                assert(spec_file_name(s).skip(j as int - 1 - (qp + 1) + 1) =~= s.skip(j as int));
            },
            Option::None => {
                lemma_last_index_skip(s, '.', 0);
                assert(s.skip(0) =~= s);
                assert(spec_file_name(s) == s);
            },
        }
        assert(spec_extension(s) == Option::Some(s.skip(j as int)));
    }
    if n - j == 2 {
        let c1 = path.as_str().get_char(j);
        let c2 = path.as_str().get_char(j + 1);
        let matched = c1 == 'm' && c2 == 'd';
        proof {
            let ext = s.skip(j as int);
            assert(ext.len() == 2);
            assert(ext[0] == s[j as int] && ext[1] == s[j as int + 1]);
            assert(seq!['m', 'd'][0] == 'm' && seq!['m', 'd'][1] == 'd');
            if matched {
                assert(ext =~= seq!['m', 'd']);
            }
        }
        matched
    } else {
        proof {
            assert(s.skip(j as int).len() != 2);
            assert(seq!['m', 'd'].len() == 2);
        }
        false
    }
}

} // verus!
