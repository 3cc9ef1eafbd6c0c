//! Transport-session decisions: the registration capability list and the
//! heartbeat's first-tick rule.

use vstd::prelude::*;
use crate::text::str_eq;

verus! {

/// Whether some element of `v` has view `x`.
pub open spec fn spec_contains_str(v: Seq<String>, x: Seq<char>) -> bool {
    exists|i: int| 0 <= i < v.len() && v[i]@ == x
}

/// Whether `v` holds a string with the same characters as `x`.
pub fn vec_contains_str(v: &Vec<String>, x: &str) -> (r: bool)
    ensures
        r == spec_contains_str(v@, x@),
{
    let mut i: usize = 0;
    while i < v.len()
        invariant
            0 <= i <= v@.len(),
            forall|j: int| 0 <= j < i ==> v@[j]@ != x@,
        decreases v@.len() - i,
    {
        if str_eq(v[i].as_str(), x) {
            return true;
        }
        i += 1;
    }
    false
}

/// Deduplicate the capability names gathered from the skill manifests,
/// keeping the first occurrence of each and their order.
pub fn dedup_strings(items: Vec<String>) -> (r: Vec<String>)
    ensures
        forall|i: int, j: int| 0 <= i < j < r@.len() ==> r@[i]@ != r@[j]@,
        forall|i: int| 0 <= i < items@.len() ==> spec_contains_str(r@, #[trigger] items@[i]@),
        forall|i: int| 0 <= i < r@.len() ==> spec_contains_str(items@, #[trigger] r@[i]@),
{
    let mut r: Vec<String> = Vec::new();
    let mut i: usize = 0;
    while i < items.len()
        invariant
            0 <= i <= items@.len(),
            forall|a: int, b: int| 0 <= a < b < r@.len() ==> r@[a]@ != r@[b]@,
            forall|a: int| 0 <= a < i ==> spec_contains_str(r@, #[trigger] items@[a]@),
            forall|a: int| 0 <= a < r@.len() ==> spec_contains_str(items@, #[trigger] r@[a]@),
        decreases items@.len() - i,
    {
        if !vec_contains_str(&r, items[i].as_str()) {
            let ghost prev = r@;
            r.push(items[i].clone());
            proof {
                assert(r@ == prev.push(items@[i as int]));
                assert(r@[r@.len() - 1]@ == items@[i as int]@);
                assert forall|a: int| 0 <= a <= i implies spec_contains_str(
                    r@,
                    #[trigger] items@[a]@,
                ) by {
                    if a < i {
                        let w = choose|w: int| 0 <= w < prev.len() && prev[w]@ == items@[a]@;
                        assert(r@[w]@ == items@[a]@);
                    }
                }
                assert forall|a: int| 0 <= a < r@.len() implies spec_contains_str(
                    items@,
                    #[trigger] r@[a]@,
                ) by {
                    if a < prev.len() {
                        assert(r@[a]@ == prev[a]@);
                        let w = choose|w: int| 0 <= w < items@.len() && items@[w]@ == prev[a]@;
                        assert(items@[w]@ == r@[a]@);
                    } else {
                        assert(items@[i as int]@ == r@[a]@);
                    }
                }
                assert forall|a: int, b: int| 0 <= a < b < r@.len() implies r@[a]@ != r@[b]@ by {
                    if b == r@.len() - 1 {
                        assert(r@[a]@ == prev[a]@);
                        assert(!spec_contains_str(prev, items@[i as int]@));
                    }
                }
            }
        }
        i += 1;
    }
    r
}

/// Heartbeat state: the session re-emits its full registration on the first
/// tick only, covering an orchestrator listener that attached late.
pub struct Heartbeat {
    first: bool,
}

impl Heartbeat {
    /// Whether the next tick is the first.
    pub closed spec fn is_first(&self) -> bool {
        self.first
    }

    /// A fresh heartbeat whose next tick is the first.
    pub fn new() -> (r: Heartbeat)
        ensures
            r.is_first(),
    {
        Heartbeat { first: true }
    }

    /// One heartbeat tick: says whether to re-emit the full registration —
    /// exactly on the first tick — besides the periodic liveness event.
    pub fn tick(&mut self) -> (reemit_registration: bool)
        ensures
            reemit_registration == old(self).is_first(),
            !final(self).is_first(),
    {
        let r = self.first;
        self.first = false;
        r
    }
}

} // verus!
