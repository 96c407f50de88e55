//! Grouping of a chart's values into bars.

use vstd::prelude::*;

verus! {

/// Number of values beyond which a chart's values are grouped into bars.
pub const NUMBER_OFF_BARS: usize = 20;

/// The number of values that one bar stands for, among `len` values: one
/// each while there are fewer than [`NUMBER_OFF_BARS`], else `len` divided
/// by [`NUMBER_OFF_BARS`], rounded down.
pub open spec fn bar_width(len: nat) -> nat {
    if len < NUMBER_OFF_BARS {
        1
    } else {
        len / (NUMBER_OFF_BARS as nat)
    }
}

/// The value indices that the bars of a chart of `len` values stand for:
/// consecutive ranges `start..end` of [`bar_width`] values each, starting at
/// 0, the last one cut at `len`. A bar shows the mean of its range.
pub fn bar_ranges(len: usize) -> (r: Vec<(usize, usize)>)
    ensures
        forall|i: int|
            0 <= i < r@.len() ==> {
                let w = bar_width(len as nat) as int;
                &&& #[trigger] r@[i].0 == i * w
                &&& r@[i].1 == if (i + 1) * w < len {
                    (i + 1) * w
                } else {
                    len as int
                }
            },
        r@.len() * bar_width(len as nat) >= len,
        r@.len() > 0 ==> (r@.len() - 1) * bar_width(len as nat) < len,
{
    let w: usize = if len < NUMBER_OFF_BARS {
        1
    } else {
        len / NUMBER_OFF_BARS
    };
    assert(w == bar_width(len as nat));
    let mut r: Vec<(usize, usize)> = Vec::new();
    let mut start: usize = 0;
    assert(r@.len() * w == 0) by (nonlinear_arith)
        requires
            r@.len() == 0;
    while start < len
        invariant_except_break
            start <= len,
            start == r@.len() * w,
            r@.len() > 0 ==> (r@.len() - 1) * w < len,
        invariant
            w == bar_width(len as nat),
            w >= 1,
            forall|i: int|
                0 <= i < r@.len() ==> {
                    &&& #[trigger] r@[i].0 == i * w
                    &&& r@[i].1 == if (i + 1) * w < len {
                        (i + 1) * w
                    } else {
                        len as int
                    }
                },
        ensures
            r@.len() * w >= len,
            r@.len() > 0 ==> (r@.len() - 1) * w < len,
            forall|i: int|
                0 <= i < r@.len() ==> {
                    &&& #[trigger] r@[i].0 == i * w
                    &&& r@[i].1 == if (i + 1) * w < len {
                        (i + 1) * w
                    } else {
                        len as int
                    }
                },
        decreases len - start,
    {
        let k = r.len();
        proof {
            assert((k + 1) * w == k * w + w) by (nonlinear_arith);
            assert(((k + 1) - 1) * w == k * w);
        }
        let ghost before = r@;
        if len - start > w {
            r.push((start, start + w));
            proof {
                assert(r@[k as int].0 == (k as int) * w);
                assert(r@[k as int].1 == ((k as int) + 1) * w);
                assert(forall|i: int| 0 <= i < k ==> r@[i] == before[i]);
            }
            start = start + w;
        } else {
            r.push((start, len));
            proof {
                assert(r@[k as int].0 == (k as int) * w);
                assert(r@[k as int].1 == len);
                assert(!(((k as int) + 1) * w < len));
                assert(forall|i: int| 0 <= i < k ==> r@[i] == before[i]);
            }
            break;
        }
    }
    r
}

} // verus!
