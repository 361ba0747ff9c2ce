//! Path arithmetic on plain strings: joining a base path with a pattern,
//! normalizing leading `./` components, and the ancestor relation that
//! drives exclusion.

use vstd::prelude::*;
use vstd::string::*;

verus! {

/// Joining a base path and a relative path, the way a Unix path join works:
/// an absolute right-hand side wins; otherwise the two are glued with a
/// single separator.
pub open spec fn spec_join(base: Seq<char>, rel: Seq<char>) -> Seq<char> {
    if rel.len() > 0 && rel[0] == '/' {
        rel
    } else if base.len() == 0 {
        rel
    } else if base[base.len() - 1] == '/' {
        base + rel
    } else {
        base + seq!['/'] + rel
    }
}

/// A path with every leading `./` removed.
pub open spec fn spec_norm(p: Seq<char>) -> Seq<char>
    decreases p.len(),
{
    if p.len() >= 2 && p[0] == '.' && p[1] == '/' {
        spec_norm(p.skip(2))
    } else {
        p
    }
}

/// One sequence is a prefix of another.
pub open spec fn spec_is_prefix(pre: Seq<char>, s: Seq<char>) -> bool {
    pre.len() <= s.len() && s.take(pre.len() as int) == pre
}

/// `anc` names an ancestor of `p`, or the same path: after normalization
/// the two are equal, or `anc` followed by a separator is a prefix of `p`.
pub open spec fn spec_is_ancestor(anc: Seq<char>, p: Seq<char>) -> bool {
    let a = spec_norm(anc);
    let q = spec_norm(p);
    a == q || spec_is_prefix(a + seq!['/'], q)
}

/// Joins the base path and a pattern.
pub fn join_path(base: &String, rel: &String) -> (r: String)
    ensures
        r@ == spec_join(base@, rel@),
{
    let b = base.as_str();
    let p = rel.as_str();
    let bn = b.unicode_len();
    let pn = p.unicode_len();
    if pn > 0 && p.get_char(0) == '/' {
        String::from_str(p)
    } else if bn == 0 {
        String::from_str(p)
    } else if b.get_char(bn - 1) == '/' {
        let mut r = String::from_str(b);
        r.append(p);
        r
    } else {
        let mut r = String::from_str(b);
        r.append("/");
        r.append(p);
        proof {
            reveal_strlit("/");
            assert(r@ =~= base@ + seq!['/'] + rel@);
        }
        r
    }
}

/// Normalizes a path by dropping every leading `./`.
#[verifier::loop_isolation(false)]
pub fn norm_path(p: &String) -> (r: String)
    ensures
        r@ == spec_norm(p@),
{
    let s = p.as_str();
    let n = s.unicode_len();
    let mut i: usize = 0;
    proof {
        assert(p@.skip(0) =~= p@);
    }
    while n - i >= 2 && s.get_char(i) == '.' && s.get_char(i + 1) == '/'
        invariant
            n == s@.len(),
            s@ == p@,
            i <= n,
            spec_norm(p@) == spec_norm(p@.skip(i as int)),
        decreases n - i,
    {
        proof {
            assert(p@.skip(i as int).skip(2) =~= p@.skip(i + 2));
        }
        i = i + 2;
    }
    proof {
        assert(spec_norm(p@.skip(i as int)) == p@.skip(i as int));
        assert(s@.subrange(i as int, n as int) =~= p@.skip(i as int));
    }
    String::from_str(s.substring_char(i, n))
}

/// Decides the ancestor relation between two paths.
#[verifier::loop_isolation(false)]
pub fn is_ancestor(anc: &String, p: &String) -> (r: bool)
    ensures
        r == spec_is_ancestor(anc@, p@),
{
    let a = norm_path(anc);
    let q = norm_path(p);
    if a == q {
        return true;
    }
    let astr = a.as_str();
    let qstr = q.as_str();
    let an = astr.unicode_len();
    let qn = qstr.unicode_len();
    if an >= qn {
        proof {
            assert(!spec_is_prefix(a@ + seq!['/'], q@));
        }
        return false;
    }
    if qstr.get_char(an) != '/' {
        proof {
            assert((a@ + seq!['/'])[an as int] == '/');
            assert(q@.take(an + 1)[an as int] == q@[an as int]);
            assert(!spec_is_prefix(a@ + seq!['/'], q@));
        }
        return false;
    }
    let mut i: usize = 0;
    while i < an
        invariant
            an == a@.len(),
            qn == q@.len(),
            an + 1 <= qn,
            astr@ == a@,
            qstr@ == q@,
            i <= an,
            forall|j: int| 0 <= j < i ==> q@[j] == a@[j],
        decreases an - i,
    {
        if astr.get_char(i) != qstr.get_char(i) {
            proof {
                assert(q@.take(an + 1)[i as int] == q@[i as int]);
                assert((a@ + seq!['/'])[i as int] == a@[i as int]);
                assert(!spec_is_prefix(a@ + seq!['/'], q@));
            }
            return false;
        }
        i = i + 1;
    }
    proof {
        assert(q@.take(an + 1) =~= a@ + seq!['/']);
    }
    true
}

} // verus!
