//! Matching: expanding include patterns against the filesystem, filtering
//! the candidates through the exclusion predicate, and collecting the
//! matched file paths.

use vstd::prelude::*;
use vstd::string::*;
use crate::config::{partition_patterns, strip_marker, spec_includes};
use crate::paths::{join_path, is_ancestor, spec_join, spec_is_ancestor, spec_is_prefix};

verus! {

/// Whether a string compiles as a glob expression; what `glob::glob` decides
/// from the pattern text alone.
pub uninterp spec fn glob_pattern_ok(p: Seq<char>) -> bool;

/// Relies on glob::glob: it returns `Err` exactly when the pattern does not
/// compile as a glob expression, and on success yields one entry per
/// filesystem match — the matched path, or `None` where an entry could not
/// be read during the walk. What the expansion yields depends on the disk,
/// so nothing is assumed of the entries.
#[verifier::external_body]
fn expand_glob(pattern: &String) -> (r: Result<Vec<Option<String>>, String>)
    ensures
        r is Ok <==> glob_pattern_ok(pattern@),
{
    match glob::glob(pattern.as_str()) {
        Ok(paths) => Ok(
            paths.map(
                |entry: Result<std::path::PathBuf, glob::GlobError>| match entry {
                    Ok(p) => Some(p.display().to_string()),
                    Err(_) => None,
                },
            ).collect(),
        ),
        Err(e) => Err(format!("{}", e)),
    }
}

/// Relies on std::path::Path::is_file: whether the path names a regular file
/// on disk right now. The answer depends on the state of the disk, so
/// nothing is assumed of it.
#[verifier::external_body]
fn path_is_file(p: &String) -> bool {
    std::path::Path::new(p.as_str()).is_file()
}

/// A candidate is excluded when some exclusion root is an ancestor of it, or
/// equal to it.
pub open spec fn spec_excluded(p: Seq<char>, roots: Seq<Seq<char>>) -> bool {
    exists|i: int| 0 <= i < roots.len() && spec_is_ancestor(roots[i], p)
}

/// No path is held twice.
pub open spec fn spec_no_dup(v: Seq<Seq<char>>) -> bool {
    forall|i: int, j: int| 0 <= i < j < v.len() ==> v[i] != v[j]
}

/// Decides the exclusion predicate over a list of exclusion roots.
#[verifier::loop_isolation(false)]
pub fn is_excluded(p: &String, roots: &Vec<String>) -> (r: bool)
    ensures
        r == spec_excluded(p@, roots.deep_view()),
{
    let n = roots.len();
    let mut i: usize = 0;
    while i < n
        invariant
            i <= n,
            forall|j: int| 0 <= j < i ==> !spec_is_ancestor(roots.deep_view()[j], p@),
        decreases n - i,
    {
        if is_ancestor(&roots[i], p) {
            proof {
                assert(roots.deep_view()[i as int] == roots@[i as int]@);
                assert(spec_excluded(p@, roots.deep_view()));
            }
            return true;
        }
        i = i + 1;
    }
    false
}

/// Whether the list already holds the path.
#[verifier::loop_isolation(false)]
pub fn contains_path(v: &Vec<String>, p: &String) -> (r: bool)
    ensures
        r == v.deep_view().contains(p@),
{
    let n = v.len();
    let mut i: usize = 0;
    while i < n
        invariant
            i <= n,
            forall|j: int| 0 <= j < i ==> v.deep_view()[j] != p@,
        decreases n - i,
    {
        let hit = v[i] == *p;
        proof {
            assert(v.deep_view()[i as int] == v@[i as int]@);
        }
        if hit {
            return true;
        }
        i = i + 1;
    }
    false
}

/// What one expansion's entries contribute to a match list: each resolved
/// entry whose file flag is set, that no exclusion root covers and that the
/// list does not already hold is appended, in expansion order.
pub open spec fn spec_keep(
    entries: Seq<Option<Seq<char>>>,
    flags: Seq<bool>,
    roots: Seq<Seq<char>>,
    acc: Seq<Seq<char>>,
) -> Seq<Seq<char>>
    decreases entries.len(),
{
    if entries.len() == 0 {
        acc
    } else {
        let next = match entries[0] {
            Some(p) => if flags.len() > 0 && flags[0] && !spec_excluded(p, roots) && !acc.contains(
                p,
            ) {
                acc.push(p)
            } else {
                acc
            },
            None => acc,
        };
        spec_keep(entries.drop_first(), flags.drop_first(), roots, next)
    }
}

/// The selection rule keeps a match list well formed: starting from a list
/// with no duplicates and no member the roots cover, whatever entries and
/// file flags come back from the disk, the extended list has no duplicates
/// and no member the roots cover either.
pub proof fn lemma_spec_keep_preserves(
    entries: Seq<Option<Seq<char>>>,
    flags: Seq<bool>,
    roots: Seq<Seq<char>>,
    acc: Seq<Seq<char>>,
)
    requires
        spec_no_dup(acc),
        forall|j: int| 0 <= j < acc.len() ==> !spec_excluded(acc[j], roots),
    ensures
        spec_no_dup(spec_keep(entries, flags, roots, acc)),
        forall|j: int|
            0 <= j < spec_keep(entries, flags, roots, acc).len() ==> !spec_excluded(
                spec_keep(entries, flags, roots, acc)[j],
                roots,
            ),
    decreases entries.len(),
{
    if entries.len() == 0 {
    } else {
        let next = match entries[0] {
            Some(p) => if flags.len() > 0 && flags[0] && !spec_excluded(p, roots) && !acc.contains(
                p,
            ) {
                acc.push(p)
            } else {
                acc
            },
            None => acc,
        };
        match entries[0] {
            Some(p) => {
                if flags.len() > 0 && flags[0] && !spec_excluded(p, roots) && !acc.contains(p) {
                    assert forall|i: int, j: int| 0 <= i < j < next.len() implies next[i]
                        != next[j] by {
                        if j == acc.len() && next[i] == p {
                            assert(acc.contains(p));
                        }
                    };
                    assert forall|j: int| 0 <= j < next.len() implies !spec_excluded(
                        next[j],
                        roots,
                    ) by {
                        if j < acc.len() {
                            assert(!spec_excluded(acc[j], roots));
                        }
                    };
                }
            },
            None => {},
        }
        lemma_spec_keep_preserves(entries.drop_first(), flags.drop_first(), roots, next);
    }
}

/// Applies the selection rule to one expansion's entries: `flags[k]` says
/// whether `entries[k]` names a regular file; every resolved entry that is a
/// file, that no exclusion root covers and that the list does not already
/// hold is appended to the list, in expansion order.
#[verifier::loop_isolation(false)]
pub fn filter_entries(
    entries: &Vec<Option<String>>,
    flags: &Vec<bool>,
    roots: &Vec<String>,
    out: &mut Vec<String>,
)
    requires
        entries@.len() == flags@.len(),
    ensures
        final(out).deep_view() == spec_keep(
            entries.deep_view(),
            flags@,
            roots.deep_view(),
            old(out).deep_view(),
        ),
{
    let ghost ev = entries.deep_view();
    let n = entries.len();
    let mut k: usize = 0;
    proof {
        assert(ev.skip(0) =~= ev);
        assert(flags@.skip(0) =~= flags@);
    }
    while k < n
        invariant
            k <= n,
            spec_keep(ev, flags@, roots.deep_view(), old(out).deep_view()) == spec_keep(
                ev.skip(k as int),
                flags@.skip(k as int),
                roots.deep_view(),
                out.deep_view(),
            ),
        decreases n - k,
    {
        proof {
            assert(ev.skip(k as int).drop_first() =~= ev.skip(k + 1));
            assert(flags@.skip(k as int).drop_first() =~= flags@.skip(k + 1));
            assert(ev.skip(k as int)[0] == ev[k as int]);
            assert(flags@.skip(k as int)[0] == flags@[k as int]);
            assert(ev[k as int] == entries@[k as int].deep_view());
        }
        if let Some(p) = &entries[k] {
            if flags[k] && !is_excluded(p, roots) && !contains_path(out, p) {
                let ghost before = out.deep_view();
                out.push(p.clone());
                proof {
                    assert(out.deep_view() =~= before.push(p@));
                }
            }
        }
        k = k + 1;
    }
    proof {
        assert(ev.skip(n as int).len() == 0);
    }
}

/// Expands every include pattern against the base path and collects, in
/// expansion order, each regular file that no exclusion root covers, each
/// path at most once; the selection of each expansion's entries is
/// `filter_entries`' contract. Fails on the first include pattern that is
/// not a valid glob expression.
#[verifier::loop_isolation(false)]
pub fn collect_matches(base: &String, includes: &Vec<String>, exclusion_roots: &Vec<String>) -> (r:
    Result<Vec<String>, String>)
    ensures
        r is Ok <==> (forall|i: int|
            0 <= i < includes.deep_view().len() ==> glob_pattern_ok(
                spec_join(base@, includes.deep_view()[i]),
            )),
        r matches Ok(v) ==> spec_no_dup(v.deep_view()),
        r matches Ok(v) ==> (forall|j: int|
            0 <= j < v.deep_view().len() ==> !spec_excluded(
                v.deep_view()[j],
                exclusion_roots.deep_view(),
            )),
        r matches Ok(v) ==> (includes.deep_view().len() == 0 ==> v.deep_view().len() == 0),
        r matches Err(m) ==> spec_is_prefix("Glob pattern error: "@, m@),
{
    let mut out: Vec<String> = Vec::new();
    let n = includes.len();
    let mut i: usize = 0;
    while i < n
        invariant
            i <= n,
            spec_no_dup(out.deep_view()),
            forall|j: int| 0 <= j < out.deep_view().len() ==> !spec_excluded(
                out.deep_view()[j],
                exclusion_roots.deep_view(),
            ),
            forall|j: int| 0 <= j < i ==> glob_pattern_ok(
                spec_join(base@, includes.deep_view()[j]),
            ),
            n == 0 ==> out.deep_view().len() == 0,
        decreases n - i,
    {
        let full = join_path(base, &includes[i]);
        proof {
            assert(includes.deep_view()[i as int] == includes@[i as int]@);
        }
        match expand_glob(&full) {
            Ok(entries) => {
                let mut flags: Vec<bool> = Vec::new();
                let m = entries.len();
                let mut k: usize = 0;
                while k < m
                    invariant
                        k <= m,
                        flags@.len() == k,
                    decreases m - k,
                {
                    if let Some(p) = &entries[k] {
                        flags.push(path_is_file(p));
                    } else {
                        flags.push(false);
                    }
                    k = k + 1;
                }
                let ghost before = out.deep_view();
                filter_entries(&entries, &flags, exclusion_roots, &mut out);
                proof {
                    lemma_spec_keep_preserves(
                        entries.deep_view(),
                        flags@,
                        exclusion_roots.deep_view(),
                        before,
                    );
                }
            },
            Err(msg) => {
                let mut message = String::from_str("Glob pattern error: ");
                message.append(msg.as_str());
                proof {
                    assert(message@.take("Glob pattern error: "@.len() as int)
                        =~= "Glob pattern error: "@);
                }
                return Err(message);
            },
        }
        i = i + 1;
    }
    Ok(out)
}

/// The resolved entries of one expansion, in expansion order; entries that
/// could not be read during the walk fall away.
pub open spec fn spec_some_entries(entries: Seq<Option<Seq<char>>>) -> Seq<Seq<char>>
    decreases entries.len(),
{
    if entries.len() == 0 {
        Seq::empty()
    } else {
        spec_some_entries(entries.drop_last()) + (match entries.last() {
            Some(p) => seq![p],
            None => Seq::empty(),
        })
    }
}

/// What one exclude pattern's expansion contributes to the exclusion roots:
/// its resolved entries, in order; a failed expansion contributes none.
pub open spec fn spec_expansion_roots(expansion: Result<Vec<Option<String>>, String>) -> Seq<
    Seq<char>,
> {
    match expansion {
        Ok(entries) => spec_some_entries(entries.deep_view()),
        Err(_) => Seq::empty(),
    }
}

/// Appends one exclude pattern's expansion to the exclusion roots: exactly
/// the resolved entries, in expansion order, and nothing from a failed
/// expansion.
#[verifier::loop_isolation(false)]
pub fn append_expansion_roots(
    expansion: &Result<Vec<Option<String>>, String>,
    out: &mut Vec<String>,
)
    ensures
        final(out).deep_view() == old(out).deep_view() + spec_expansion_roots(*expansion),
{
    match expansion {
        Ok(entries) => {
            let ghost ev = entries.deep_view();
            let n = entries.len();
            let mut k: usize = 0;
            proof {
                assert(ev.take(0).len() == 0);
                assert(out.deep_view() =~= old(out).deep_view() + spec_some_entries(ev.take(0)));
            }
            while k < n
                invariant
                    k <= n,
                    out.deep_view() == old(out).deep_view() + spec_some_entries(
                        ev.take(k as int),
                    ),
                decreases n - k,
            {
                proof {
                    assert(ev.take(k + 1).drop_last() =~= ev.take(k as int));
                    assert(ev.take(k + 1).last() == ev[k as int]);
                    assert(ev[k as int] == entries@[k as int].deep_view());
                }
                let ghost before = out.deep_view();
                if let Some(p) = &entries[k] {
                    out.push(p.clone());
                    proof {
                        assert(ev[k as int] == Some(p@));
                        assert(out.deep_view() =~= before.push(p@));
                        assert(spec_some_entries(ev.take(k + 1)) =~= spec_some_entries(
                            ev.take(k as int),
                        ) + seq![p@]);
                        assert(out.deep_view() =~= old(out).deep_view() + spec_some_entries(
                            ev.take(k + 1),
                        ));
                    }
                } else {
                    proof {
                        assert(ev[k as int] is None);
                        assert(spec_some_entries(ev.take(k + 1)) =~= spec_some_entries(
                            ev.take(k as int),
                        ));
                        assert(out.deep_view() =~= old(out).deep_view() + spec_some_entries(
                            ev.take(k + 1),
                        ));
                    }
                }
                k = k + 1;
            }
            proof {
                assert(ev.take(n as int) =~= ev);
            }
        },
        Err(_) => {
            proof {
                assert(out.deep_view() =~= old(out).deep_view() + spec_expansion_roots(
                    *expansion,
                ));
            }
        },
    }
}

/// Partitions the configuration's patterns, expands the exclude patterns
/// relative to the current working directory into exclusion roots (a
/// malformed or failing exclude pattern contributes none, as
/// `append_expansion_roots`' contract states), and collects the matched
/// files of the include patterns.
#[verifier::loop_isolation(false)]
pub fn summarize(base: &String, patterns: &Vec<String>) -> (r: Result<Vec<String>, String>)
    ensures
        r is Ok <==> (forall|i: int|
            0 <= i < spec_includes(patterns.deep_view()).len() ==> glob_pattern_ok(
                spec_join(base@, spec_includes(patterns.deep_view())[i]),
            )),
        r matches Ok(v) ==> spec_no_dup(v.deep_view()),
        r matches Ok(v) ==> (spec_includes(patterns.deep_view()).len() == 0
            ==> v.deep_view().len() == 0),
        r matches Err(m) ==> spec_is_prefix("Glob pattern error: "@, m@),
{
    let (includes, excludes) = partition_patterns(patterns);
    let mut roots: Vec<String> = Vec::new();
    let en = excludes.len();
    let mut e: usize = 0;
    while e < en
        invariant
            e <= en,
        decreases en - e,
    {
        let stripped = strip_marker(&excludes[e]);
        let expansion = expand_glob(&stripped);
        append_expansion_roots(&expansion, &mut roots);
        e = e + 1;
    }
    collect_matches(base, &includes, &roots)
}

/// No exclude patterns means no exclusion: with an empty set of exclusion
/// roots no path is ever excluded, so every regular file an include pattern
/// matched is kept, once.
pub proof fn lemma_no_roots_no_exclusion(p: Seq<char>)
    ensures
        !spec_excluded(p, Seq::empty()),
{
}

/// An exclusion root that is an ancestor of a candidate keeps that candidate
/// out of every match list whose members all pass the exclusion predicate.
pub proof fn lemma_ancestor_excludes(
    v: Seq<Seq<char>>,
    roots: Seq<Seq<char>>,
    anc: Seq<char>,
    p: Seq<char>,
)
    requires
        forall|j: int| 0 <= j < v.len() ==> !spec_excluded(v[j], roots),
        roots.contains(anc),
        spec_is_ancestor(anc, p),
    ensures
        !v.contains(p),
{
    if v.contains(p) {
        let j = choose|j: int| 0 <= j < v.len() && v[j] == p;
        let i = choose|i: int| 0 <= i < roots.len() && roots[i] == anc;
        assert(spec_excluded(v[j], roots));
    }
}

} // verus!
