//! The labelled points that the two-dimensional classifier learns from, and their
//! editing.

use vstd::prelude::*;

verus! {

/// The class of a datapoint in the two-dimensional classifier.
#[derive(Clone, Copy, Debug, PartialEq, Eq, Structural)]
pub enum Label2D {
    Purple,
    Green,
}

/// A labelled point on the integer grid.
#[derive(Clone, Copy, Debug)]
pub struct Datapoint2D {
    pub pos: (i32, i32),
    pub label: Label2D,
}

impl Datapoint2D {
    pub fn new(pos: (i32, i32), label: Label2D) -> (r: Datapoint2D)
        ensures
            r.pos == pos,
            r.label == label,
    {
        Datapoint2D { pos, label }
    }
}

/// The first index from `k` on of a datapoint at `point`, or `-1` when there is none.
pub open spec fn first_at(s: Seq<Datapoint2D>, point: (i32, i32), k: int) -> int
    decreases s.len() - k,
{
    if k < 0 || k >= s.len() {
        -1
    } else if s[k].pos == point {
        k
    } else {
        first_at(s, point, k + 1)
    }
}

proof fn lemma_first_at(s: Seq<Datapoint2D>, point: (i32, i32), k: int)
    requires
        0 <= k <= s.len(),
    ensures
        first_at(s, point, k) == -1 || k <= first_at(s, point, k) < s.len(),
        first_at(s, point, k) != -1 ==> s[first_at(s, point, k)].pos == point,
        first_at(s, point, k) == -1 ==> forall|j: int| k <= j < s.len() ==> s[j].pos != point,
    decreases s.len() - k,
{
    if k < s.len() && s[k].pos != point {
        lemma_first_at(s, point, k + 1);
    }
}

/// Paints the grid position `point`: with `Some(label)`, the datapoint there takes
/// that label (one is added if none is there); with `None`, the datapoint there is
/// removed. Only the first datapoint at `point` is considered. Returns whether the
/// datapoints changed.
pub fn modify_datapoint(
    datapoints: &mut Vec<Datapoint2D>,
    point: (i32, i32),
    label: Option<Label2D>,
) -> (changed: bool)
    ensures
        ({
            let s = old(datapoints)@;
            let i = first_at(s, point, 0);
            match label {
                Some(l) => if i == -1 {
                    final(datapoints)@ == s.push(Datapoint2D { pos: point, label: l }) && changed
                } else {
                    final(datapoints)@ == s.update(i, Datapoint2D { pos: point, label: l })
                        && changed == (s[i].label != l)
                },
                None => if i == -1 {
                    final(datapoints)@ == s && !changed
                } else {
                    final(datapoints)@ == s.remove(i) && changed
                },
            }
        }),
{
    let ghost s = datapoints@;
    let n = datapoints.len();
    let mut k: usize = 0;
    while k < n && (datapoints[k].pos.0 != point.0 || datapoints[k].pos.1 != point.1)
        invariant
            k <= n,
            n == s.len(),
            datapoints@ == s,
            first_at(s, point, 0) == first_at(s, point, k as int),
        decreases n - k,
    {
        k = k + 1;
    }
    proof {
        lemma_first_at(s, point, k as int);
    }
    match label {
        Some(l) => {
            if k < n {
                if datapoints[k].label != l {
                    datapoints.set(k, Datapoint2D::new(point, l));
                    true
                } else {
                    proof {
                        assert(s.update(k as int, Datapoint2D { pos: point, label: l }) =~= s);
                    }
                    false
                }
            } else {
                datapoints.push(Datapoint2D::new(point, l));
                true
            }
        },
        None => {
            if k < n {
                datapoints.remove(k);
                true
            } else {
                false
            }
        },
    }
}

} // verus!
