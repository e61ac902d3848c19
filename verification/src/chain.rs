//! Chains of states: what something was before and after each of a number of
//! calls.

use vstd::prelude::*;

verus! {

/// `states` are what something was before and after each of `n` calls, from
/// `first` to `last`.
pub open spec fn leads<S>(states: Seq<S>, first: S, last: S, n: nat) -> bool {
    states.len() == n + 1 && states[0] == first && states[n as int] == last
}

/// `i` is one of the calls between `states`.
pub open spec fn is_step<S>(states: Seq<S>, i: int) -> bool {
    0 <= i < states.len() - 1
}

} // verus!
