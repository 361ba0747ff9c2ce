//! Pattern partitioning: splitting a configuration's pattern list into
//! include patterns and exclude patterns, and stripping the exclusion marker.

use vstd::prelude::*;
use vstd::string::*;

verus! {

/// An exclude pattern is marked by a leading `!`.
pub open spec fn is_exclude_pattern(p: Seq<char>) -> bool {
    p.len() > 0 && p[0] == '!'
}

/// The include patterns of a configuration, in their original order.
pub open spec fn spec_includes(ps: Seq<Seq<char>>) -> Seq<Seq<char>> {
    ps.filter(|p: Seq<char>| !is_exclude_pattern(p))
}

/// The exclude patterns of a configuration, marker still attached, in their
/// original order.
pub open spec fn spec_excludes(ps: Seq<Seq<char>>) -> Seq<Seq<char>> {
    ps.filter(|p: Seq<char>| is_exclude_pattern(p))
}

/// An exclude pattern with every leading `!` removed.
pub open spec fn spec_strip_marker(p: Seq<char>) -> Seq<char>
    decreases p.len(),
{
    if p.len() > 0 && p[0] == '!' {
        spec_strip_marker(p.drop_first())
    } else {
        p
    }
}

/// Decides whether a pattern carries the exclusion marker.
pub fn is_exclude(p: &String) -> (r: bool)
    ensures
        r == is_exclude_pattern(p@),
{
    let s = p.as_str();
    if s.unicode_len() == 0 {
        false
    } else {
        s.get_char(0) == '!'
    }
}

/// Splits a configuration's patterns into includes and excludes, both in the
/// order the configuration gave them. Excludes keep their marker.
pub fn partition_patterns(patterns: &Vec<String>) -> (r: (Vec<String>, Vec<String>))
    ensures
        r.0.deep_view() == spec_includes(patterns.deep_view()),
        r.1.deep_view() == spec_excludes(patterns.deep_view()),
{
    let ghost dv = patterns.deep_view();
    let mut includes: Vec<String> = Vec::new();
    let mut excludes: Vec<String> = Vec::new();
    let n = patterns.len();
    let mut i: usize = 0;
    while i < n
        invariant
            n == patterns@.len(),
            dv == patterns.deep_view(),
            i <= n,
            includes.deep_view() == spec_includes(dv.take(i as int)),
            excludes.deep_view() == spec_excludes(dv.take(i as int)),
        decreases n - i,
    {
        proof {
            assert(dv.take(i + 1).drop_last() =~= dv.take(i as int));
            assert(dv.take(i + 1).last() == dv[i as int]);
            assert(dv[i as int] == patterns@[i as int]@);
            reveal(Seq::filter);
        }
        let p = patterns[i].clone();
        if is_exclude(&p) {
            excludes.push(p);
            proof {
                assert(excludes.deep_view() =~= spec_excludes(dv.take(i + 1)));
                assert(includes.deep_view() =~= spec_includes(dv.take(i + 1)));
            }
        } else {
            includes.push(p);
            proof {
                assert(includes.deep_view() =~= spec_includes(dv.take(i + 1)));
                assert(excludes.deep_view() =~= spec_excludes(dv.take(i + 1)));
            }
        }
        i = i + 1;
    }
    proof {
        assert(dv.take(n as int) =~= dv);
    }
    (includes, excludes)
}

/// Removes the leading `!` markers from an exclude pattern.
pub fn strip_marker(p: &String) -> (r: String)
    ensures
        r@ == spec_strip_marker(p@),
{
    let s = p.as_str();
    let n = s.unicode_len();
    let mut i: usize = 0;
    proof {
        assert(p@.skip(0) =~= p@);
    }
    while i < n && s.get_char(i) == '!'
        invariant
            n == s@.len(),
            s@ == p@,
            i <= n,
            spec_strip_marker(p@) == spec_strip_marker(p@.skip(i as int)),
        decreases n - i,
    {
        proof {
            assert(p@.skip(i as int).drop_first() =~= p@.skip(i + 1));
        }
        i = i + 1;
    }
    proof {
        assert(spec_strip_marker(p@.skip(i as int)) == p@.skip(i as int));
    }
    String::from_str(s.substring_char(i, n))
}

} // verus!
