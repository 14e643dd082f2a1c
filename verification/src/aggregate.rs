//! The result aggregator: validate the cross-array length invariants, refuse
//! an empty node set, and compute the complexity total from which the
//! rendering sink derives its color-scale midpoint.

use vstd::prelude::*;

verus! {

/// A run that cannot produce a meaningful output: the four result arrays
/// disagree in length (a builder defect), or the node set is empty (nothing
/// to visualize). Process-fatal, unlike the per-file parser errors.
#[derive(Debug)]
pub enum ConsistencyViolation {
    LengthMismatch,
    EmptyNodeSet,
}

/// The sum of a sequence of complexity scores.
pub open spec fn cc_sum(ccs: Seq<u64>) -> int
    decreases ccs.len(),
{
    if ccs.len() == 0 {
        0
    } else {
        cc_sum(ccs.drop_last()) + ccs.last()
    }
}

/// The validated output record set handed to the rendering sink: four
/// equal-length parallel arrays, plus the complexity total and the node
/// count. The mean complexity — the arithmetic mean of the complexity field
/// across the full node set — is `cc_total / count`; the division itself is
/// left to the sink, which works in its own numeric domain.
pub struct OutputRecordSet {
    pub nlocs: Vec<u64>,
    pub ccs: Vec<u64>,
    pub labels: Vec<String>,
    pub parents: Vec<String>,
    pub cc_total: u128,
    pub count: usize,
}

/// Validate the four parallel result arrays and extract the output record
/// set. Fails with `LengthMismatch` exactly when the arrays disagree in
/// length, and with `EmptyNodeSet` exactly when they agree on length zero;
/// otherwise the output carries the arrays unchanged, their common length,
/// and the exact complexity total.
pub fn aggregate(nlocs: Vec<u64>, ccs: Vec<u64>, labels: Vec<String>, parents: Vec<String>) -> (r:
    Result<OutputRecordSet, ConsistencyViolation>)
    ensures
        match r {
            Ok(out) => {
                &&& nlocs@.len() == labels@.len() && labels@.len() == parents@.len()
                    && parents@.len() == ccs@.len()
                &&& ccs@.len() > 0
                &&& out.nlocs == nlocs
                &&& out.ccs == ccs
                &&& out.labels == labels
                &&& out.parents == parents
                &&& out.cc_total == cc_sum(ccs@)
                &&& out.count == ccs@.len()
            },
            Err(ConsistencyViolation::LengthMismatch) => !(nlocs@.len() == labels@.len()
                && labels@.len() == parents@.len() && parents@.len() == ccs@.len()),
            Err(ConsistencyViolation::EmptyNodeSet) => nlocs@.len() == labels@.len()
                && labels@.len() == parents@.len() && parents@.len() == ccs@.len() && ccs@.len()
                == 0,
        },
{
    /* the vec lengths must all be the same */
    if !(nlocs.len() == labels.len() && labels.len() == parents.len() && parents.len()
        == ccs.len()) {
        return Err(ConsistencyViolation::LengthMismatch);
    }
    if ccs.len() == 0 {
        return Err(ConsistencyViolation::EmptyNodeSet);
    }
    let count = ccs.len();
    let mut total: u128 = 0;
    let ghost m: int = u64::MAX as int;
    for i in 0..count
        invariant
            count == ccs@.len(),
            total == cc_sum(ccs@.take(i as int)),
            total <= i * m,
            m == u64::MAX as int,
    {
        proof {
            assert(ccs@.take(i + 1).drop_last() =~= ccs@.take(i as int));
            assert(ccs@.take(i + 1).last() == ccs@[i as int]);
            assert(i * m + m == (i + 1) * m) by (nonlinear_arith);
            assert((i + 1) * m <= 0xffff_ffff_ffff_ffff_ffff_ffff_ffff_ffff)
                by (nonlinear_arith)
                requires
                    0 <= i < 0xffff_ffff_ffff_ffff,
                    m == 0xffff_ffff_ffff_ffff,
            ;
        }
        total = total + ccs[i] as u128;
    }
    proof {
        assert(ccs@.take(count as int) =~= ccs@);
    }
    Ok(OutputRecordSet { nlocs, ccs, labels, parents, cc_total: total, count })
}

} // verus!
