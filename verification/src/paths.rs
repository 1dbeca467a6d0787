//! A textual model of filesystem paths.
//!
//! The reconciler works on paths as plain strings: joining is gluing with a
//! single separator (an absolute right-hand side wins), a leading `~` is the
//! home-directory placeholder, and the parent of a path is everything before
//! its last separator. Duplicate or trailing separators are taken as written,
//! not normalised.

use vstd::prelude::*;
use vstd::string::StrSliceExecFns;
use vstd::string::StringExecFns;

verus! {

broadcast use vstd::string::group_string_axioms;

pub open spec fn is_absolute(p: Seq<char>) -> bool {
    p.len() > 0 && p[0] == '/'
}

/// Joining as `Path::join` behaves on textual paths: an absolute right-hand
/// side replaces the left-hand side; otherwise the two are glued with exactly
/// one separator between them.
pub open spec fn join_spec(root: Seq<char>, rel: Seq<char>) -> Seq<char> {
    if is_absolute(rel) {
        rel
    } else if root.len() == 0 {
        rel
    } else if root[root.len() - 1] == '/' {
        root + rel
    } else {
        root + seq!['/'] + rel
    }
}

pub fn join_paths(root: &String, rel: &String) -> (r: String)
    ensures
        r@ == join_spec(root@, rel@),
{
    let rel_len: usize = rel.as_str().unicode_len();
    if rel_len > 0 && rel.as_str().get_char(0) == '/' {
        return rel.clone();
    }
    let root_len: usize = root.as_str().unicode_len();
    if root_len == 0 {
        return rel.clone();
    }
    if root.as_str().get_char(root_len - 1) == '/' {
        return root.clone().concat(rel.as_str());
    }
    let r = root.clone().concat("/").concat(rel.as_str());
    proof {
        reveal_strlit("/");
        assert(r@ =~= root@ + seq!['/'] + rel@);
    }
    r
}

/// A path that the home-directory placeholder applies to: `~` alone, or a
/// path whose first component is `~`.
pub open spec fn has_home_placeholder(p: Seq<char>) -> bool {
    p == seq!['~'] || (p.len() >= 2 && p[0] == '~' && p[1] == '/')
}

/// Expansion of the home-directory placeholder, with the home directory given
/// as a plain value (`None` when it cannot be determined). A path without the
/// placeholder is returned unchanged; `~` alone becomes the home directory;
/// `~/rest` becomes the home directory joined with `rest`.
pub open spec fn expand_spec(home: Option<Seq<char>>, p: Seq<char>) -> Option<Seq<char>> {
    if !has_home_placeholder(p) {
        Some(p)
    } else {
        match home {
            None => None,
            Some(h) => if p == seq!['~'] {
                Some(h)
            } else {
                Some(join_spec(h, p.skip(2)))
            },
        }
    }
}

pub fn expand_path(home: &Option<String>, p: &String) -> (r: Option<String>)
    ensures
        r.deep_view() == expand_spec(home.deep_view(), p@),
{
    let len: usize = p.as_str().unicode_len();
    let tilde_alone = len == 1 && p.as_str().get_char(0) == '~';
    let tilde_slash = len >= 2 && p.as_str().get_char(0) == '~' && p.as_str().get_char(1) == '/';
    proof {
        assert(tilde_alone <==> p@ == seq!['~']) by {
            if tilde_alone {
                assert(p@ =~= seq!['~']);
            }
        }
        assert(has_home_placeholder(p@) == (tilde_alone || tilde_slash));
    }
    if !tilde_alone && !tilde_slash {
        return Some(p.clone());
    }
    match home {
        None => None,
        Some(h) => {
            if tilde_alone {
                Some(h.clone())
            } else {
                let rest = String::from_str(p.as_str().substring_char(2, len));
                proof {
                    assert(rest@ =~= p@.skip(2));
                }
                Some(join_paths(h, &rest))
            }
        },
    }
}

/// The index of the last separator in `p`, or `-1` if it has none.
pub open spec fn last_slash(p: Seq<char>) -> int
    decreases p.len(),
{
    if p.len() == 0 {
        -1
    } else if p[p.len() - 1] == '/' {
        p.len() - 1
    } else {
        last_slash(p.drop_last())
    }
}

/// The parent of a textual path: everything before its last separator.
/// A top-level entry has parent `/`, a bare relative name has the empty
/// parent, and the empty path and the root itself have none.
pub open spec fn parent_spec(p: Seq<char>) -> Option<Seq<char>> {
    if p.len() == 0 || p == seq!['/'] {
        None
    } else if last_slash(p) == -1 {
        Some(Seq::empty())
    } else if last_slash(p) == 0 {
        Some(seq!['/'])
    } else {
        Some(p.take(last_slash(p)))
    }
}

pub fn parent_path(p: &String) -> (r: Option<String>)
    ensures
        r.deep_view() == parent_spec(p@),
{
    let len: usize = p.as_str().unicode_len();
    if len == 0 {
        return None;
    }
    let is_root = len == 1 && p.as_str().get_char(0) == '/';
    if is_root {
        proof {
            assert(p@ =~= seq!['/']);
        }
        return None;
    }
    proof {
        assert(!(p@ == seq!['/']));
        assert(p@.take(len as int) =~= p@);
    }
    let mut i: usize = len;
    while i > 0
        invariant
            i <= len,
            len == p@.len(),
            len > 0,
            !(p@ == seq!['/']),
            last_slash(p@) == last_slash(p@.take(i as int)),
        decreases i,
    {
        if p.as_str().get_char(i - 1) == '/' {
            proof {
                assert(p@.take(i as int).last() == p@[i - 1]);
                assert(last_slash(p@.take(i as int)) == i - 1);
            }
            if i - 1 == 0 {
                let par = String::from_str("/");
                proof {
                    reveal_strlit("/");
                    assert(par@ =~= seq!['/']);
                }
                return Some(par);
            }
            let par = String::from_str(p.as_str().substring_char(0, i - 1));
            proof {
                assert(par@ =~= p@.take(last_slash(p@)));
            }
            return Some(par);
        }
        proof {
            assert(p@.take(i as int).last() == p@[i - 1]);
            assert(p@.take(i as int).drop_last() =~= p@.take(i - 1));
        }
        i = i - 1;
    }
    proof {
        assert(p@.take(0) =~= Seq::<char>::empty());
        assert(last_slash(p@) == -1);
    }
    Some(String::new())
}

} // verus!
