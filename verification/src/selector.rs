//! The member selector: uniformly random choice from the roster, with
//! exclusion-based rerolling.

use vstd::prelude::*;
use rand::Rng;

verus! {

/// Whether some entry of `s` has exactly the characters `x`.
pub open spec fn seq_contains_str(s: Seq<String>, x: Seq<char>) -> bool {
    exists|i: int| 0 <= i < s.len() && s[i]@ == x
}

/// A member eligible for selection: on the roster and not excluded.
pub open spec fn is_eligible(roster: Seq<String>, exclude: Seq<String>, x: Seq<char>) -> bool {
    seq_contains_str(roster, x) && !seq_contains_str(exclude, x)
}

/// Relies on `rand::Rng::gen_range` over the range `0..n`: it returns a
/// uniformly random value of that range, and panics only when the range is
/// empty, which the precondition rules out.
#[verifier::external_body]
fn random_index_below(n: usize) -> (r: usize)
    requires
        n > 0,
    ensures
        r < n,
{
    rand::thread_rng().gen_range(0..n)
}

/// Whether some entry of `v` equals `x`.
pub fn contains_string(v: &Vec<String>, x: &String) -> (r: bool)
    ensures
        r == seq_contains_str(v@, x@),
{
    let mut i: usize = 0;
    while i < v.len()
        invariant
            i <= v@.len(),
            forall|k: int| 0 <= k < i ==> v@[k]@ != x@,
        decreases v@.len() - i,
    {
        if v[i].eq(x) {
            assert(seq_contains_str(v@, x@));
            return true;
        }
        i = i + 1;
    }
    false
}

/// Picks one uniformly random member of `roster` that is not in `exclude`;
/// `None` exactly when no such member exists.
pub fn select(roster: &Vec<String>, exclude: &Vec<String>) -> (r: Option<String>)
    ensures
        r is Some <==> exists|i: int|
            0 <= i < roster@.len() && !seq_contains_str(exclude@, roster@[i]@),
        r is Some ==> is_eligible(roster@, exclude@, r->Some_0@),
{
    let mut eligible: Vec<String> = Vec::new();
    let mut i: usize = 0;
    while i < roster.len()
        invariant
            i <= roster@.len(),
            forall|k: int|
                0 <= k < eligible@.len() ==> is_eligible(roster@, exclude@, eligible@[k]@),
            (exists|k: int| 0 <= k < i && !seq_contains_str(exclude@, roster@[k]@))
                <==> eligible@.len() > 0,
        decreases roster@.len() - i,
    {
        let member = &roster[i];
        if !contains_string(exclude, member) {
            assert(seq_contains_str(roster@, member@));
            eligible.push(member.clone());
        }
        i = i + 1;
    }
    if eligible.len() == 0 {
        None
    } else {
        let k = random_index_below(eligible.len());
        Some(eligible[k].clone())
    }
}

} // verus!
