//! Paths as strings with `/` between their components.

use vstd::prelude::*;

verus! {

/// The place of the last `/` in `path`, or -1 where it holds none.
pub open spec fn last_slash(path: Seq<char>) -> int
    decreases path.len(),
{
    if path.len() == 0 {
        -1
    } else if path.last() == '/' {
        path.len() - 1
    } else {
        last_slash(path.drop_last())
    }
}

/// The directory that holds `path`: what stands before its last `/`. That
/// is `/` for an entry of the root, and `.` for a bare name.
pub open spec fn spec_dir_name(path: Seq<char>) -> Seq<char> {
    let cut = last_slash(path);
    if cut < 0 {
        seq!['.']
    } else if cut == 0 {
        seq!['/']
    } else {
        path.subrange(0, cut)
    }
}

/// `rel` seen from `base`: `rel` itself where it starts at the root or
/// `base` is empty, else the two with one `/` between them.
pub open spec fn spec_join(base: Seq<char>, rel: Seq<char>) -> Seq<char> {
    if rel.len() > 0 && rel[0] == '/' {
        rel
    } else if base.len() == 0 {
        rel
    } else if base.last() == '/' {
        base + rel
    } else {
        base + seq!['/'] + rel
    }
}

/// The last `/` of a text is the last `/` of any prefix that holds all of
/// its slashes.
proof fn last_slash_of_prefix(path: Seq<char>, n: int)
    requires
        0 <= n <= path.len(),
        forall|k: int| n <= k < path.len() ==> path[k] != '/',
    ensures
        last_slash(path) == last_slash(path.subrange(0, n)),
    decreases path.len() - n,
{
    if n == path.len() {
        assert(path.subrange(0, n) =~= path);
    } else {
        last_slash_of_prefix(path.drop_last(), n);
        assert(path.drop_last().subrange(0, n) =~= path.subrange(0, n));
    }
}

/// The directory that holds `path`.
pub fn dir_name(path: &str) -> (r: String)
    ensures
        r@ == spec_dir_name(path@),
{
    let len = path.unicode_len();
    let mut n: usize = len;
    while n > 0 && path.get_char(n - 1) != '/'
        invariant
            n <= len,
            len == path@.len(),
            forall|k: int| n <= k < len ==> path@[k] != '/',
        decreases n,
    {
        n -= 1;
    }
    proof {
        last_slash_of_prefix(path@, n as int);
        reveal_strlit(".");
        reveal_strlit("/");
        if n > 0 {
            assert(path@.subrange(0, n as int).last() == '/');
        }
    }
    if n == 0 {
        let r = String::from_str(".");
        assert(r@ =~= seq!['.']);
        r
    } else if n == 1 {
        let r = String::from_str("/");
        assert(r@ =~= seq!['/']);
        r
    } else {
        String::from_str(path.substring_char(0, n - 1))
    }
}

/// `rel` seen from `base`.
pub fn join(base: &str, rel: &str) -> (r: String)
    ensures
        r@ == spec_join(base@, rel@),
{
    let base_len = base.unicode_len();
    if rel.unicode_len() > 0 && rel.get_char(0) == '/' {
        String::from_str(rel)
    } else if base_len == 0 {
        String::from_str(rel)
    } else if base.get_char(base_len - 1) == '/' {
        String::from_str(base).concat(rel)
    } else {
        proof {
            reveal_strlit("/");
        }
        let r = String::from_str(base).concat("/").concat(rel);
        assert(r@ =~= base@ + seq!['/'] + rel@);
        r
    }
}

} // verus!
