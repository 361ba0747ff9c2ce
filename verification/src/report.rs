//! Report building: rendering the matched paths and their contents as the
//! two-part textual report, and the laws that hold of that rendering.

use vstd::prelude::*;
use vstd::string::*;

verus! {

/// One line of the path listing.
pub open spec fn spec_path_entry(p: Seq<char>) -> Seq<char> {
    "- "@ + p + "\n"@
}

/// The path listing's entries, in order.
pub open spec fn spec_paths_block(ps: Seq<Seq<char>>) -> Seq<char>
    decreases ps.len(),
{
    if ps.len() == 0 {
        Seq::empty()
    } else {
        spec_paths_block(ps.drop_last()) + spec_path_entry(ps.last())
    }
}

/// One section of the contents listing: a heading naming the file, then the
/// content between fences, byte for byte.
pub open spec fn spec_content_section(p: Seq<char>, c: Seq<char>) -> Seq<char> {
    "\n### File: "@ + p + "\n```\n"@ + c + "\n```\n"@
}

/// The contents listing's sections, in order.
pub open spec fn spec_contents_block(ps: Seq<Seq<char>>, cs: Seq<Seq<char>>) -> Seq<char>
    decreases ps.len(),
{
    if ps.len() == 0 {
        Seq::empty()
    } else {
        spec_contents_block(ps.drop_last(), cs.drop_last()) + spec_content_section(
            ps.last(),
            cs.last(),
        )
    }
}

/// The whole report: the path listing under its header, a blank line, then
/// the contents listing under its header.
pub open spec fn spec_report(ps: Seq<Seq<char>>, cs: Seq<Seq<char>>) -> Seq<char> {
    "## Key Files Paths\n"@ + spec_paths_block(ps) + "\n"@ + "\n## Files Contents\n"@
        + spec_contents_block(ps, cs)
}

/// Renders the report for the matched paths and their contents, in order.
#[verifier::loop_isolation(false)]
pub fn build_report(paths: &Vec<String>, contents: &Vec<String>) -> (r: String)
    requires
        paths@.len() == contents@.len(),
    ensures
        r@ == spec_report(paths.deep_view(), contents.deep_view()),
{
    let ghost pv = paths.deep_view();
    let ghost cv = contents.deep_view();
    let mut path_block = String::new();
    let mut content_block = String::new();
    let n = paths.len();
    let mut i: usize = 0;
    while i < n
        invariant
            i <= n,
            path_block@ == spec_paths_block(pv.take(i as int)),
            content_block@ == spec_contents_block(pv.take(i as int), cv.take(i as int)),
        decreases n - i,
    {
        proof {
            assert(pv.take(i + 1).drop_last() =~= pv.take(i as int));
            assert(cv.take(i + 1).drop_last() =~= cv.take(i as int));
            assert(pv.take(i + 1).last() == paths@[i as int]@);
            assert(cv.take(i + 1).last() == contents@[i as int]@);
        }
        path_block.append("- ");
        path_block.append(paths[i].as_str());
        path_block.append("\n");
        content_block.append("\n### File: ");
        content_block.append(paths[i].as_str());
        content_block.append("\n```\n");
        content_block.append(contents[i].as_str());
        content_block.append("\n```\n");
        i = i + 1;
    }
    proof {
        assert(pv.take(n as int) =~= pv);
        assert(cv.take(n as int) =~= cv);
    }
    let mut r = String::from_str("## Key Files Paths\n");
    r.append(path_block.as_str());
    r.append("\n");
    r.append("\n## Files Contents\n");
    r.append(content_block.as_str());
    r
}

/// The report is a function of the matched paths and contents alone: the
/// same matches and the same file contents give the identical report, so a
/// second run over an unchanged filesystem prints the same text.
pub proof fn lemma_report_deterministic(
    ps1: Seq<Seq<char>>,
    cs1: Seq<Seq<char>>,
    ps2: Seq<Seq<char>>,
    cs2: Seq<Seq<char>>,
)
    requires
        ps1 == ps2,
        cs1 == cs2,
    ensures
        spec_report(ps1, cs1) == spec_report(ps2, cs2),
{
}

/// The middle part of a three-way concatenation is readable back unchanged.
proof fn lemma_subrange_of_concat3(x: Seq<char>, y: Seq<char>, z: Seq<char>)
    ensures
        (x + y + z).subrange(x.len() as int, x.len() + y.len() as int) == y,
{
    assert((x + y + z).subrange(x.len() as int, x.len() + y.len() as int) =~= y);
}

/// The contents listing of a whole match list extends the contents listing
/// of any of its prefixes.
proof fn lemma_contents_block_extends(ps: Seq<Seq<char>>, cs: Seq<Seq<char>>, k: int) -> (t: Seq<
    char,
>)
    requires
        ps.len() == cs.len(),
        0 <= k <= ps.len(),
    ensures
        spec_contents_block(ps, cs) == spec_contents_block(ps.take(k), cs.take(k)) + t,
    decreases ps.len(),
{
    if k == ps.len() {
        assert(ps.take(k) =~= ps);
        assert(cs.take(k) =~= cs);
        let t = Seq::<char>::empty();
        assert(spec_contents_block(ps, cs) =~= spec_contents_block(ps.take(k), cs.take(k)) + t);
        t
    } else {
        let t0 = lemma_contents_block_extends(ps.drop_last(), cs.drop_last(), k);
        assert(ps.drop_last().take(k) =~= ps.take(k));
        assert(cs.drop_last().take(k) =~= cs.take(k));
        let t = t0 + spec_content_section(ps.last(), cs.last());
        assert(spec_contents_block(ps, cs) =~= spec_contents_block(ps.take(k), cs.take(k)) + t);
        t
    }
}

/// The path listing of a whole match list extends the path listing of any
/// of its prefixes.
proof fn lemma_paths_block_extends(ps: Seq<Seq<char>>, k: int) -> (t: Seq<char>)
    requires
        0 <= k <= ps.len(),
    ensures
        spec_paths_block(ps) == spec_paths_block(ps.take(k)) + t,
    decreases ps.len(),
{
    if k == ps.len() {
        assert(ps.take(k) =~= ps);
        let t = Seq::<char>::empty();
        assert(spec_paths_block(ps) =~= spec_paths_block(ps.take(k)) + t);
        t
    } else {
        let t0 = lemma_paths_block_extends(ps.drop_last(), k);
        assert(ps.drop_last().take(k) =~= ps.take(k));
        let t = t0 + spec_path_entry(ps.last());
        assert(spec_paths_block(ps) =~= spec_paths_block(ps.take(k)) + t);
        t
    }
}

/// Every matched path stands in the path listing as an entry of its own: the
/// line `- <path>` is a contiguous run of the report.
pub proof fn lemma_path_listed(ps: Seq<Seq<char>>, cs: Seq<Seq<char>>, i: int)
    requires
        ps.len() == cs.len(),
        0 <= i < ps.len(),
    ensures
        exists|off: int|
            #![trigger spec_report(ps, cs).subrange(off, off + spec_path_entry(ps[i]).len())]
            0 <= off && off + spec_path_entry(ps[i]).len() <= spec_report(ps, cs).len()
                && spec_report(ps, cs).subrange(off, off + spec_path_entry(ps[i]).len())
                == spec_path_entry(ps[i]),
{
    let t = lemma_paths_block_extends(ps, i + 1);
    assert(ps.take(i + 1).drop_last() =~= ps.take(i));
    assert(spec_paths_block(ps.take(i + 1)) == spec_paths_block(ps.take(i)) + spec_path_entry(
        ps[i],
    ));
    let head = "## Key Files Paths\n"@ + spec_paths_block(ps.take(i));
    let tail = t + "\n"@ + "\n## Files Contents\n"@ + spec_contents_block(ps, cs);
    assert(spec_report(ps, cs) =~= head + spec_path_entry(ps[i]) + tail);
    lemma_subrange_of_concat3(head, spec_path_entry(ps[i]), tail);
    let off = head.len() as int;
    assert(0 <= off && off + spec_path_entry(ps[i]).len() <= spec_report(ps, cs).len()
        && spec_report(ps, cs).subrange(off, off + spec_path_entry(ps[i]).len())
        == spec_path_entry(ps[i]));
}

/// Round trip of a file through the report: the content of each matched
/// file stands in the report verbatim, as a contiguous run of characters,
/// with no transformation, truncation or escaping.
pub proof fn lemma_content_verbatim(ps: Seq<Seq<char>>, cs: Seq<Seq<char>>, i: int)
    requires
        ps.len() == cs.len(),
        0 <= i < ps.len(),
    ensures
        exists|off: int|
            #![trigger spec_report(ps, cs).subrange(off, off + cs[i].len())]
            0 <= off && off + cs[i].len() <= spec_report(ps, cs).len() && spec_report(
                ps,
                cs,
            ).subrange(off, off + cs[i].len()) == cs[i],
{
    let t = lemma_contents_block_extends(ps, cs, i + 1);
    assert(ps.take(i + 1).drop_last() =~= ps.take(i));
    assert(cs.take(i + 1).drop_last() =~= cs.take(i));
    assert(spec_contents_block(ps.take(i + 1), cs.take(i + 1)) == spec_contents_block(
        ps.take(i),
        cs.take(i),
    ) + spec_content_section(ps[i], cs[i]));
    let head = "## Key Files Paths\n"@ + spec_paths_block(ps) + "\n"@ + "\n## Files Contents\n"@
        + spec_contents_block(ps.take(i), cs.take(i)) + "\n### File: "@ + ps[i] + "\n```\n"@;
    let tail = "\n```\n"@ + t;
    assert(spec_report(ps, cs) =~= head + cs[i] + tail);
    lemma_subrange_of_concat3(head, cs[i], tail);
    let off = head.len() as int;
    assert(0 <= off && off + cs[i].len() <= spec_report(ps, cs).len() && spec_report(
        ps,
        cs,
    ).subrange(off, off + cs[i].len()) == cs[i]);
}

/// An empty match list still produces both headers, with no entries between
/// them.
pub proof fn lemma_empty_report()
    ensures
        spec_report(Seq::empty(), Seq::empty()) == "## Key Files Paths\n"@ + "\n"@
            + "\n## Files Contents\n"@,
{
    assert(spec_paths_block(Seq::empty()) =~= Seq::<char>::empty());
    assert(spec_contents_block(Seq::empty(), Seq::empty()) =~= Seq::<char>::empty());
    assert(spec_report(Seq::empty(), Seq::empty()) =~= "## Key Files Paths\n"@ + "\n"@
        + "\n## Files Contents\n"@);
}

} // verus!
