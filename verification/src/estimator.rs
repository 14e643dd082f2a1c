//! The heuristic complexity estimator: scan a file's lines with a language
//! profile and produce an integer complexity score and a function count.

use vstd::prelude::*;

use crate::lang::LanguageProfile;
use crate::lang::ProfileView;
use crate::strutil::contains_sub;
use crate::strutil::str_contains;
use crate::strutil::views_of;

verus! {

/// The line holds at least one of the markers as a literal substring.
pub open spec fn has_any_marker(line: Seq<char>, markers: Seq<Seq<char>>) -> bool {
    exists|k: int| 0 <= k < markers.len() && contains_sub(line, #[trigger] markers[k])
}

/// How many of the markers occur in the line. Each marker counts once per
/// line however often it occurs: the scan tests presence, not occurrences.
pub open spec fn markers_present(line: Seq<char>, markers: Seq<Seq<char>>) -> nat
    decreases markers.len(),
{
    if markers.len() == 0 {
        0
    } else {
        markers_present(line, markers.drop_last()) + if contains_sub(line, markers.last()) {
            1nat
        } else {
            0nat
        }
    }
}

/// A line is retained when it holds no comment marker; this can discard code
/// lines that merely mention a marker inside a string literal, an accepted
/// approximation of the heuristic.
pub open spec fn retained(line: Seq<char>, comments: Seq<Seq<char>>) -> bool {
    !has_any_marker(line, comments)
}

/// Sum over the retained lines of the logical-operator markers present.
pub open spec fn op_count(
    lines: Seq<Seq<char>>,
    comments: Seq<Seq<char>>,
    ops: Seq<Seq<char>>,
) -> nat
    decreases lines.len(),
{
    if lines.len() == 0 {
        0
    } else {
        op_count(lines.drop_last(), comments, ops) + if retained(lines.last(), comments) {
            markers_present(lines.last(), ops)
        } else {
            0nat
        }
    }
}

/// Number of retained lines holding at least one statement marker.
pub open spec fn stmt_count(
    lines: Seq<Seq<char>>,
    comments: Seq<Seq<char>>,
    stmts: Seq<Seq<char>>,
) -> nat
    decreases lines.len(),
{
    if lines.len() == 0 {
        0
    } else {
        stmt_count(lines.drop_last(), comments, stmts) + if retained(lines.last(), comments)
            && has_any_marker(lines.last(), stmts) {
            1nat
        } else {
            0nat
        }
    }
}

/// Number of retained lines holding the function-definition marker.
pub open spec fn function_line_count(
    lines: Seq<Seq<char>>,
    comments: Seq<Seq<char>>,
    fdef: Seq<char>,
) -> nat
    decreases lines.len(),
{
    if lines.len() == 0 {
        0
    } else {
        function_line_count(lines.drop_last(), comments, fdef) + if retained(
            lines.last(),
            comments,
        ) && contains_sub(lines.last(), fdef) {
            1nat
        } else {
            0nat
        }
    }
}

/// The complexity score of a file: statement-bearing retained lines plus
/// logical-operator markers present on retained lines.
pub open spec fn complexity_spec(lines: Seq<Seq<char>>, p: ProfileView) -> nat {
    stmt_count(lines, p.comments, p.statements) + op_count(lines, p.comments, p.logical_ops)
}

/// Whether the line holds any of the markers.
fn any_marker(line: &str, markers: &Vec<String>) -> (r: bool)
    ensures
        r == has_any_marker(line@, views_of(markers@)),
{
    for k in 0..markers.len()
        invariant
            forall|j: int| 0 <= j < k ==> !contains_sub(line@, #[trigger] views_of(markers@)[j]),
    {
        if str_contains(line, markers[k].as_str()) {
            assert(contains_sub(line@, views_of(markers@)[k as int]));
            return true;
        }
    }
    false
}

proof fn lemma_markers_present_take(line: Seq<char>, markers: Seq<Seq<char>>, k: int)
    requires
        0 <= k < markers.len(),
    ensures
        markers_present(line, markers.take(k + 1)) == markers_present(line, markers.take(k))
            + if contains_sub(line, markers[k]) {
            1nat
        } else {
            0nat
        },
{
    assert(markers.take(k + 1).drop_last() =~= markers.take(k));
    assert(markers.take(k + 1).last() == markers[k]);
}

/// How many of the markers the line holds.
fn count_markers(line: &str, markers: &Vec<String>) -> (n: u64)
    requires
        markers@.len() <= u64::MAX,
    ensures
        n == markers_present(line@, views_of(markers@)),
        n <= markers@.len(),
{
    let mut n: u64 = 0;
    let ghost mviews = views_of(markers@);
    for k in 0..markers.len()
        invariant
            markers@.len() <= u64::MAX,
            mviews == views_of(markers@),
            n == markers_present(line@, mviews.take(k as int)),
            n <= k,
    {
        proof {
            lemma_markers_present_take(line@, mviews, k as int);
        }
        if str_contains(line, markers[k].as_str()) {
            n = n + 1;
        }
    }
    proof {
        assert(mviews.take(markers@.len() as int) =~= mviews);
    }
    n
}

/// Get the complexity score of a file's lines under a language profile, by
/// searching for decision statements and logical operations on the lines that
/// hold no comment marker.
///
/// The score is the raw sum of statement lines and operator markers. It is
/// deliberately not normalized by the function count that
/// [`count_function_lines`] computes: the raw sum is what the treemap
/// colors by.
pub fn get_file_complexity(lines: &Vec<String>, profile: &LanguageProfile) -> (c: u64)
    requires
        lines@.len() * (profile@.logical_ops.len() + 1) <= u64::MAX,
    ensures
        c == complexity_spec(views_of(lines@), profile@),
{
    let mut stmt: u64 = 0;
    let mut ops: u64 = 0;
    let ghost lviews = views_of(lines@);
    let ghost opslen = profile@.logical_ops.len() as int;
    for i in 0..lines.len()
        invariant
            lviews == views_of(lines@),
            opslen == profile@.logical_ops.len(),
            lines@.len() * (opslen + 1) <= u64::MAX,
            stmt == stmt_count(lviews.take(i as int), profile@.comments, profile@.statements),
            ops == op_count(lviews.take(i as int), profile@.comments, profile@.logical_ops),
            stmt <= i,
            ops <= i * opslen,
    {
        let line = lines[i].as_str();
        proof {
            assert(lviews.take(i + 1).drop_last() =~= lviews.take(i as int));
            assert(lviews.take(i + 1).last() == line@);
            assert((i + 1) * opslen == i * opslen + opslen) by (nonlinear_arith);
            assert((i + 1) * opslen + (i + 1) <= lines@.len() * (opslen + 1)) by (nonlinear_arith)
                requires
                    0 <= opslen,
                    0 <= i,
                    i + 1 <= lines@.len(),
            ;
        }
        if any_marker(line, &profile.comments) {
        } else {
            assert(opslen <= u64::MAX) by (nonlinear_arith)
                requires
                    0 <= opslen,
                    1 <= lines@.len(),
                    lines@.len() * (opslen + 1) <= u64::MAX,
            ;
            let delta = count_markers(line, &profile.logical_ops);
            ops = ops + delta;
            if any_marker(line, &profile.statements) {
                stmt = stmt + 1;
            }
        }
    }
    proof {
        assert(lviews.take(lines@.len() as int) =~= lviews);
        assert(lines@.len() * opslen + lines@.len() == lines@.len() * (opslen + 1))
            by (nonlinear_arith);
    }
    stmt + ops
}

/// Count the retained lines holding the profile's function-definition marker.
/// This is the estimator's function count; the current behavior computes it
/// but does not divide the complexity score by it.
pub fn count_function_lines(lines: &Vec<String>, profile: &LanguageProfile) -> (n: u64)
    requires
        lines@.len() <= u64::MAX,
    ensures
        n == function_line_count(views_of(lines@), profile@.comments, profile@.function_def),
{
    let mut n: u64 = 0;
    let ghost lviews = views_of(lines@);
    for i in 0..lines.len()
        invariant
            lviews == views_of(lines@),
            lines@.len() <= u64::MAX,
            n == function_line_count(
                lviews.take(i as int),
                profile@.comments,
                profile@.function_def,
            ),
            n <= i,
    {
        let line = lines[i].as_str();
        proof {
            assert(lviews.take(i + 1).drop_last() =~= lviews.take(i as int));
            assert(lviews.take(i + 1).last() == line@);
        }
        if !any_marker(line, &profile.comments) && str_contains(
            line,
            profile.function_def.as_str(),
        ) {
            n = n + 1;
        }
    }
    proof {
        assert(lviews.take(lines@.len() as int) =~= lviews);
    }
    n
}

} // verus!
