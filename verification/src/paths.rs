//! File-system paths as text, with `/` between components.
//!
//! A path is held as a `String`; these functions say how paths are joined and
//! taken apart on a Unix system.

use crate::text::{
    after_last, chars_of, find_last, last_index, lemma_last_index_bounds, slice,
};
use vstd::prelude::*;

verus! {

/// `rel` taken relative to `base`: an absolute `rel` stands alone, otherwise it
/// follows `base`, with one separator put between them where `base` ends in none.
pub open spec fn joined(base: Seq<char>, rel: Seq<char>) -> Seq<char> {
    if rel.len() > 0 && rel[0] == '/' {
        rel
    } else if base.len() > 0 && base.last() != '/' {
        base + seq!['/'] + rel
    } else {
        base + rel
    }
}

/// `p` without the separators and `.` components that end it.
pub open spec fn trimmed(p: Seq<char>) -> Seq<char>
    decreases p.len(),
{
    if p.len() > 0 && p.last() == '/' {
        trimmed(p.drop_last())
    } else if p.len() >= 2 && p.last() == '.' && p[p.len() - 2] == '/' {
        trimmed(p.drop_last())
    } else {
        p
    }
}

/// The final component of `p`, where it names a file or directory: none for an
/// empty path, for the root, and for a path that ends in `.` or `..` alone.
pub open spec fn file_name_of(p: Seq<char>) -> Option<Seq<char>> {
    let name = after_last(trimmed(p), '/');
    if name.len() == 0 || name == seq!['.'] || name == seq!['.', '.'] {
        None
    } else {
        Some(name)
    }
}

/// The path that holds the final component of `p`: none for an empty path and
/// for the root; the empty path for a single relative component.
pub open spec fn parent_of(p: Seq<char>) -> Option<Seq<char>> {
    let t = trimmed(p);
    let k = last_index(t, '/');
    if t.len() == 0 {
        None
    } else if k < 0 {
        Some(Seq::empty())
    } else {
        let dir = trimmed(t.subrange(0, k));
        if dir.len() == 0 {
            Some(seq!['/'])
        } else {
            Some(dir)
        }
    }
}

/// Taking away what ends a path leaves a beginning of the path, from which
/// nothing more is taken away.
pub proof fn lemma_trimmed_is_prefix(p: Seq<char>)
    ensures
        trimmed(p).len() <= p.len(),
        trimmed(p) == p.take(trimmed(p).len() as int),
        trimmed(trimmed(p)) == trimmed(p),
    decreases p.len(),
{
    if p.len() > 0 && p.last() == '/' {
        lemma_trimmed_is_prefix(p.drop_last());
        assert(p.drop_last().take(trimmed(p).len() as int) =~= p.take(trimmed(p).len() as int));
    } else if p.len() >= 2 && p.last() == '.' && p[p.len() - 2] == '/' {
        lemma_trimmed_is_prefix(p.drop_last());
        assert(p.drop_last().take(trimmed(p).len() as int) =~= p.take(trimmed(p).len() as int));
    } else {
        assert(p.take(p.len() as int) =~= p);
    }
}

/// `rel` taken relative to `base`.
pub fn join(base: &str, rel: &str) -> (r: String)
    ensures
        r@ == joined(base@, rel@),
{
    let rel_len = rel.unicode_len();
    if rel_len > 0 && rel.get_char(0) == '/' {
        return String::from_str(rel);
    }
    let base_len = base.unicode_len();
    let mut r = String::from_str(base);
    if base_len > 0 && base.get_char(base_len - 1) != '/' {
        proof {
            reveal_strlit("/");
            assert("/"@ =~= seq!['/']);
        }
        r.append("/");
    }
    r.append(rel);
    r
}

/// How many leading characters of `p` are left once the separators and `.`
/// components at its end are taken away.
fn trimmed_len(p: &Vec<char>) -> (n: usize)
    ensures
        n <= p.len(),
        p@.take(n as int) == trimmed(p@),
{
    let mut n: usize = p.len();
    proof {
        assert(p@.take(n as int) =~= p@);
    }
    loop
        invariant
            n <= p.len(),
            trimmed(p@.take(n as int)) == trimmed(p@),
        decreases n,
    {
        let ghost cur = p@.take(n as int);
        if n > 0 && p[n - 1] == '/' {
            proof {
                assert(cur.drop_last() =~= p@.take(n - 1));
            }
            n -= 1;
        } else if n >= 2 && p[n - 1] == '.' && p[n - 2] == '/' {
            proof {
                assert(cur.drop_last() =~= p@.take(n - 1));
            }
            n -= 1;
        } else {
            return n;
        }
    }
}

/// The final component of `path`, where it has one.
pub fn file_name(path: &str) -> (r: Option<String>)
    ensures
        r.deep_view() == file_name_of(path@),
{
    let chars = chars_of(path);
    let n = trimmed_len(&chars);
    let mut t = chars;
    t.truncate(n);
    proof {
        lemma_last_index_bounds(t@, '/');
        assert(t@ =~= path@.take(n as int));
    }
    let start: usize = match find_last(&t, '/') {
        Some(k) => k + 1,
        None => 0,
    };
    let ghost name = after_last(t@, '/');
    let len: usize = n - start;
    if len == 0 {
        return None;
    }
    if len == 1 && t[start] == '.' {
        assert(name =~= seq!['.']);
        return None;
    }
    if len == 2 && t[start] == '.' && t[start + 1] == '.' {
        assert(name =~= seq!['.', '.']);
        return None;
    }
    proof {
        if name == seq!['.'] {
            assert(name[0] == '.');
        }
        if name == seq!['.', '.'] {
            assert(name[0] == '.' && name[1] == '.');
        }
    }
    let r = slice(path, start, n);
    assert(r@ =~= name);
    Some(r)
}

/// The path that holds the final component of `path`, where there is one.
pub fn parent(path: &str) -> (r: Option<String>)
    ensures
        r.deep_view() == parent_of(path@),
{
    let chars = chars_of(path);
    let n = trimmed_len(&chars);
    if n == 0 {
        return None;
    }
    let mut t = chars;
    t.truncate(n);
    proof {
        assert(t@ =~= trimmed(path@));
        lemma_last_index_bounds(t@, '/');
    }
    match find_last(&t, '/') {
        None => {
            let r = String::new();
            assert(r@ =~= Seq::<char>::empty());
            Some(r)
        },
        Some(k) => {
            let mut dir = t;
            dir.truncate(k);
            let m = trimmed_len(&dir);
            proof {
                assert(dir@ =~= trimmed(path@).subrange(0, k as int));
            }
            if m == 0 {
                proof {
                    reveal_strlit("/");
                    assert("/"@ =~= seq!['/']);
                }
                Some(String::from_str("/"))
            } else {
                let r = slice(path, 0, m);
                proof {
                    lemma_trimmed_is_prefix(path@);
                    assert(r@ =~= dir@.take(m as int));
                }
                Some(r)
            }
        },
    }
}

} // verus!
