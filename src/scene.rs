use vstd::prelude::*;

verus! {

/// `k` is the winning candidate among `c`: it holds a hit, no hit is
/// nearer, and every earlier hit is strictly farther.
pub open spec fn is_nearest(c: Seq<Option<u64>>, k: int) -> bool {
    &&& 0 <= k < c.len()
    &&& c[k] is Some
    &&& forall|j: int|
        #![trigger c[j]]
        0 <= j < c.len() && c[j] is Some ==> c[k]->0 <= c[j]->0 && (j < k ==> c[k]->0 < c[j]->0)
}

pub open spec fn no_hit(c: Seq<Option<u64>>) -> bool {
    forall|j: int| #![trigger c[j]] 0 <= j < c.len() ==> c[j] is None
}

/// Picks, among the per-object intersections of one ray with the objects
/// of a scene (in the order the objects were added), the one to report.
///
/// Entry `i` holds the hit distance of object `i`, or `None` when the ray
/// misses it in the queried interval. The distances are keys whose integer
/// order is the order of the distances they encode. The nearest hit wins,
/// and of equally near hits the one of the earliest object.
pub fn nearest_hit(candidates: &Vec<Option<u64>>) -> (r: Option<usize>)
    ensures
        r is None <==> no_hit(candidates@),
        r matches Some(k) ==> is_nearest(candidates@, k as int),
{
    let mut best: Option<usize> = None;
    let mut closest: u64 = 0;
    let mut i: usize = 0;
    while i < candidates.len()
        invariant
            i <= candidates@.len(),
            best is None <==> no_hit(candidates@.take(i as int)),
            best matches Some(k) ==> {
                &&& is_nearest(candidates@.take(i as int), k as int)
                &&& candidates@[k as int] == Some(closest)
            },
        decreases candidates@.len() - i,
    {
        let c = candidates[i];
        proof {
            assert(candidates@.take(i as int + 1) =~= candidates@.take(i as int).push(c));
        }
        match c {
            Some(t) => {
                let replace = match best {
                    None => true,
                    Some(_) => t < closest,
                };
                if replace {
                    best = Some(i);
                    closest = t;
                }
            },
            None => {},
        }
        i = i + 1;
    }
    proof {
        assert(candidates@.take(i as int) =~= candidates@);
    }
    best
}

} // verus!
