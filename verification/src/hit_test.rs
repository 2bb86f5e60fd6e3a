//! The default hit tester of laid-out rectangles, and the choice of the
//! topmost hit once it is known which rectangles contain the point.
use vstd::prelude::*;

verus! {

/// The default hit-testing strategy: the topmost laid-out rectangle that
/// contains a point wins.
#[derive(Debug, Clone, Default)]
pub struct DefaultHitTester;

impl DefaultHitTester {
    pub fn new() -> (r: Self) {
        Self
    }
}

/// Of rectangles drawn in list order, the last that contains the point:
/// later rectangles are drawn on top. `hits[i]` says whether rectangle `i`
/// contains the point.
pub fn topmost_drawn_hit(hits: &[bool]) -> (r: Option<usize>)
    ensures
        match r {
            Some(i) => i < hits@.len() && hits@[i as int] && forall|j: int| i < j < hits@.len() ==> !#[trigger] hits@[j],
            None => forall|j: int| 0 <= j < hits@.len() ==> !#[trigger] hits@[j],
        },
{
    let mut k: usize = hits.len();
    while k > 0
        invariant
            k <= hits@.len(),
            forall|j: int| k <= j < hits@.len() ==> !#[trigger] hits@[j],
        decreases k,
    {
        k -= 1;
        if hits[k] {
            return Some(k);
        }
    }
    None
}

/// Of placed rectangles, the topmost that contains the point: the one with
/// the highest order, the later one among equal orders. `hits[i]` says
/// whether rectangle `i` contains the point and `orders[i]` is its order.
pub fn topmost_placed_hit(hits: &[bool], orders: &[usize]) -> (r: Option<usize>)
    requires
        hits@.len() == orders@.len(),
    ensures
        match r {
            Some(i) => {
                &&& i < hits@.len()
                &&& hits@[i as int]
                &&& forall|j: int| 0 <= j < hits@.len() && #[trigger] hits@[j] ==> orders@[j] <= orders@[i as int]
                &&& forall|j: int| i < j < hits@.len() && #[trigger] hits@[j] ==> orders@[j] < orders@[i as int]
            },
            None => forall|j: int| 0 <= j < hits@.len() ==> !#[trigger] hits@[j],
        },
{
    let mut best: Option<usize> = None;
    let mut i: usize = 0;
    while i < hits.len()
        invariant
            i <= hits@.len(),
            hits@.len() == orders@.len(),
            match best {
                Some(b) => {
                    &&& b < i
                    &&& hits@[b as int]
                    &&& forall|j: int| 0 <= j < i && #[trigger] hits@[j] ==> orders@[j] <= orders@[b as int]
                    &&& forall|j: int| b < j < i && #[trigger] hits@[j] ==> orders@[j] < orders@[b as int]
                },
                None => forall|j: int| 0 <= j < i ==> !#[trigger] hits@[j],
            },
        decreases hits@.len() - i,
    {
        if hits[i] {
            match best {
                None => {
                    best = Some(i);
                },
                Some(b) => {
                    if orders[i] >= orders[b] {
                        best = Some(i);
                    }
                },
            }
        }
        i += 1;
    }
    best
}

} // verus!
