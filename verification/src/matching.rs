//! Bracket matching: resolving a jump to its loop boundary by scanning
//! the operation sequence on demand.
//!
//! A position matches the opening bracket at `start` when, over the
//! stretch from `start` to that position inclusive, the closing
//! brackets exactly balance the opening ones; the matching boundary is
//! the first such position. The backward search uses the same
//! balancing technique in the other direction (the symmetric choice
//! the design leaves open, taken here so that nested loops resolve
//! correctly both ways). When no boundary matches, both searches fall
//! back to position 0 silently; an unmatched bracket is a defined
//! fallback of this language, not an error.

use vstd::prelude::*;

use crate::Operation;

verus! {

/// Number of positions `p` in `[lo, hi)` with `ops[p] == target`.
pub open spec fn count_op(ops: Seq<Operation>, target: Operation, lo: int, hi: int) -> int
    decreases hi - lo,
{
    if lo < 0 || hi > ops.len() || lo >= hi {
        0
    } else {
        (if ops[lo] == target {
            1int
        } else {
            0int
        }) + count_op(ops, target, lo + 1, hi)
    }
}

/// Counting one more position appends that position's contribution.
pub proof fn lemma_count_op_snoc(ops: Seq<Operation>, target: Operation, lo: int, hi: int)
    requires
        0 <= lo <= hi < ops.len(),
    ensures
        count_op(ops, target, lo, hi + 1) == count_op(ops, target, lo, hi) + (if ops[hi] == target {
            1int
        } else {
            0int
        }),
    decreases hi - lo,
{
    if lo < hi {
        lemma_count_op_snoc(ops, target, lo + 1, hi);
        assert(count_op(ops, target, lo, hi + 1) == (if ops[lo] == target {
            1int
        } else {
            0int
        }) + count_op(ops, target, lo + 1, hi + 1));
    } else {
        assert(count_op(ops, target, lo, hi) == 0);
        assert(count_op(ops, target, hi + 1, hi + 1) == 0);
        assert(count_op(ops, target, lo, hi + 1) == (if ops[hi] == target {
            1int
        } else {
            0int
        }) + count_op(ops, target, hi + 1, hi + 1));
    }
}

/// A count never exceeds the width of the scanned range.
pub proof fn lemma_count_op_bound(ops: Seq<Operation>, target: Operation, lo: int, hi: int)
    requires
        lo <= hi,
    ensures
        0 <= count_op(ops, target, lo, hi) <= hi - lo,
    decreases hi - lo,
{
    if lo < hi {
        lemma_count_op_bound(ops, target, lo + 1, hi);
    }
}

/// Position `p` closes the loop opened at `start`: over `[start, p]`
/// — the opener at `start` included — the closing brackets exactly
/// balance the opening ones.
pub open spec fn closes_at(ops: Seq<Operation>, start: int, p: int) -> bool {
    &&& start <= p < ops.len()
    &&& count_op(ops, Operation::Backward, start, p + 1) == count_op(
        ops,
        Operation::Forward,
        start,
        p + 1,
    )
}

/// Some position closes the loop opened at `start`.
pub open spec fn has_matching_end(ops: Seq<Operation>, start: int) -> bool {
    exists|p: int| closes_at(ops, start, p)
}

/// `p` is the matching closing boundary for `start`: the first
/// position at which the brackets balance.
pub open spec fn is_matching_end(ops: Seq<Operation>, start: int, p: int) -> bool {
    &&& closes_at(ops, start, p)
    &&& forall|q: int| start <= q < p ==> !closes_at(ops, start, q)
}

/// The matching closing boundary for the opening bracket at `start`,
/// or 0 when none exists (the defined fallback for an unmatched
/// bracket).
pub open spec fn spec_end_index(ops: Seq<Operation>, start: int) -> int {
    if has_matching_end(ops, start) {
        choose|p: int| is_matching_end(ops, start, p)
    } else {
        0
    }
}

/// Among the positions that close the loop opened at `start`, a first
/// one exists.
pub proof fn lemma_least_end_exists(ops: Seq<Operation>, start: int, p: int)
    requires
        closes_at(ops, start, p),
    ensures
        exists|q: int| is_matching_end(ops, start, q),
    decreases p - start,
{
    if exists|q: int| start <= q < p && closes_at(ops, start, q) {
        let q = choose|q: int| start <= q < p && closes_at(ops, start, q);
        lemma_least_end_exists(ops, start, q);
    } else {
        assert(is_matching_end(ops, start, p));
    }
}

/// The first closing boundary is unique.
pub proof fn lemma_matching_end_unique(ops: Seq<Operation>, start: int, p: int, q: int)
    requires
        is_matching_end(ops, start, p),
        is_matching_end(ops, start, q),
    ensures
        p == q,
{
}

/// Where a closing boundary exists, `spec_end_index` is it; and the
/// result always lies inside the program or is the 0 fallback.
pub proof fn lemma_spec_end_index_in_range(ops: Seq<Operation>, start: int)
    ensures
        has_matching_end(ops, start) ==> is_matching_end(ops, start, spec_end_index(ops, start)),
        spec_end_index(ops, start) == 0 || start <= spec_end_index(ops, start) < ops.len(),
{
    if has_matching_end(ops, start) {
        let p = choose|p: int| closes_at(ops, start, p);
        lemma_least_end_exists(ops, start, p);
    }
}

/// Position `p` opens the loop closed at `start`: over `[p, start)` —
/// the closer at `start` itself excluded — the opening brackets
/// outnumber the closing ones by exactly one, so the stretch strictly
/// between the two boundaries is balanced.
pub open spec fn opens_at(ops: Seq<Operation>, start: int, p: int) -> bool {
    &&& 0 <= p < start
    &&& count_op(ops, Operation::Forward, p, start) == 1 + count_op(
        ops,
        Operation::Backward,
        p,
        start,
    )
}

/// Some position opens the loop closed at `start`.
pub open spec fn has_matching_start(ops: Seq<Operation>, start: int) -> bool {
    exists|p: int| opens_at(ops, start, p)
}

/// `p` is the matching opening boundary for `start`: the last
/// position before `start` at which the brackets balance.
pub open spec fn is_matching_start(ops: Seq<Operation>, start: int, p: int) -> bool {
    &&& opens_at(ops, start, p)
    &&& forall|q: int| p < q < start ==> !opens_at(ops, start, q)
}

/// The matching opening boundary for the closing bracket at `start`,
/// or 0 when none exists (the defined fallback for an unmatched
/// bracket).
pub open spec fn spec_start_index(ops: Seq<Operation>, start: int) -> int {
    if has_matching_start(ops, start) {
        choose|p: int| is_matching_start(ops, start, p)
    } else {
        0
    }
}

/// Among the positions that open the loop closed at `start`, a last
/// one exists.
pub proof fn lemma_greatest_start_exists(ops: Seq<Operation>, start: int, p: int)
    requires
        opens_at(ops, start, p),
    ensures
        exists|q: int| is_matching_start(ops, start, q),
    decreases start - p,
{
    if exists|q: int| p < q < start && opens_at(ops, start, q) {
        let q = choose|q: int| p < q < start && opens_at(ops, start, q);
        lemma_greatest_start_exists(ops, start, q);
    } else {
        assert(is_matching_start(ops, start, p));
    }
}

/// The last opening boundary is unique.
pub proof fn lemma_matching_start_unique(ops: Seq<Operation>, start: int, p: int, q: int)
    requires
        is_matching_start(ops, start, p),
        is_matching_start(ops, start, q),
    ensures
        p == q,
{
}

/// Where an opening boundary exists, `spec_start_index` is the last
/// one; and the result always lies before `start` or is the 0
/// fallback.
pub proof fn lemma_spec_start_index_in_range(ops: Seq<Operation>, start: int)
    ensures
        has_matching_start(ops, start) ==> is_matching_start(
            ops,
            start,
            spec_start_index(ops, start),
        ),
        spec_start_index(ops, start) == 0 || 0 <= spec_start_index(ops, start) < start,
{
    if has_matching_start(ops, start) {
        let p = choose|p: int| opens_at(ops, start, p);
        lemma_greatest_start_exists(ops, start, p);
    }
}

/// Scan forward from the opening bracket at `start` for the matching
/// closing boundary: `need` counts the opening brackets seen (the one
/// at `start` included), `found` the closing ones, and the boundary
/// is the first position where the two agree. Returns 0 when no
/// boundary matches (the defined fallback).
pub fn find_end_index(start: usize, slice: &Vec<Operation>) -> (r: usize)
    requires
        start < slice@.len(),
        slice@[start as int] == Operation::Forward,
    ensures
        r == spec_end_index(slice@, start as int),
{
    let ghost ops = slice@;
    let mut need: usize = 0;
    let mut found: usize = 0;
    let mut position: usize = start;
    while position < slice.len()
        invariant
            start <= position <= ops.len(),
            ops == slice@,
            need == count_op(ops, Operation::Forward, start as int, position as int),
            found == count_op(ops, Operation::Backward, start as int, position as int),
            forall|q: int| start <= q < position ==> !closes_at(ops, start as int, q),
        decreases slice@.len() - position,
    {
        proof {
            lemma_count_op_snoc(ops, Operation::Forward, start as int, position as int);
            lemma_count_op_snoc(ops, Operation::Backward, start as int, position as int);
            lemma_count_op_bound(ops, Operation::Forward, start as int, position as int);
            lemma_count_op_bound(ops, Operation::Backward, start as int, position as int);
        }
        match slice[position] {
            Operation::Forward => {
                need = need + 1;
            },
            Operation::Backward => {
                found = found + 1;
            },
            _ => {},
        }
        if need == found {
            proof {
                assert(closes_at(ops, start as int, position as int));
                assert(is_matching_end(ops, start as int, position as int));
                lemma_spec_end_index_in_range(ops, start as int);
                lemma_matching_end_unique(
                    ops,
                    start as int,
                    position as int,
                    spec_end_index(ops, start as int),
                );
            }
            return position;
        }
        position = position + 1;
    }
    proof {
        assert(!has_matching_end(ops, start as int));
    }
    0
}

/// Scan backward from the closing bracket at `start` for the matching
/// opening boundary, balancing with the same counters in the other
/// direction: the boundary is the first position, scanning down,
/// where the opening brackets seen outnumber the closing ones seen by
/// exactly one. Returns 0 when no boundary matches (the defined
/// fallback).
pub fn find_start_index(start: usize, slice: &Vec<Operation>) -> (r: usize)
    requires
        start < slice@.len(),
        slice@[start as int] == Operation::Backward,
    ensures
        r == spec_start_index(slice@, start as int),
{
    let ghost ops = slice@;
    let mut opened: usize = 0;
    let mut closed: usize = 0;
    let mut position: usize = start;
    while position > 0
        invariant
            position <= start,
            start <= ops.len(),
            ops == slice@,
            opened == count_op(ops, Operation::Forward, position as int, start as int),
            closed == count_op(ops, Operation::Backward, position as int, start as int),
            forall|q: int| position <= q < start ==> !opens_at(ops, start as int, q),
        decreases position,
    {
        position = position - 1;
        proof {
            lemma_count_op_bound(ops, Operation::Forward, position as int, start as int);
            lemma_count_op_bound(ops, Operation::Backward, position as int, start as int);
            assert(count_op(ops, Operation::Forward, position as int, start as int) == (if ops[position as int]
                == Operation::Forward {
                1int
            } else {
                0int
            }) + count_op(ops, Operation::Forward, position + 1, start as int));
            assert(count_op(ops, Operation::Backward, position as int, start as int) == (if ops[position as int]
                == Operation::Backward {
                1int
            } else {
                0int
            }) + count_op(ops, Operation::Backward, position + 1, start as int));
        }
        match slice[position] {
            Operation::Forward => {
                opened = opened + 1;
            },
            Operation::Backward => {
                closed = closed + 1;
            },
            _ => {},
        }
        if opened > closed && opened - closed == 1 {
            proof {
                assert(opens_at(ops, start as int, position as int));
                assert(is_matching_start(ops, start as int, position as int));
                lemma_spec_start_index_in_range(ops, start as int);
                lemma_matching_start_unique(
                    ops,
                    start as int,
                    position as int,
                    spec_start_index(ops, start as int),
                );
            }
            return position;
        }
    }
    proof {
        assert(!has_matching_start(ops, start as int));
    }
    0
}

} // verus!
