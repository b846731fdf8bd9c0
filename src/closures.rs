//! Handing a fixed message to a caller-supplied closure.
use vstd::prelude::*;

verus! {

/// The message that [`using_fn_with_closure_input`] hands to its closure.
pub open spec fn injected_message() -> Seq<char> {
    "I am injected into the closure!"@
}

/// Calls `func` once, with an owned string holding [`injected_message`].
pub fn using_fn_with_closure_input<F>(func: F) where F: Fn(String)
    requires
        forall|s: String| s@ == injected_message() ==> call_requires(func, (s,)),
    ensures
        exists|s: String| s@ == injected_message() && call_ensures(func, (s,), ()),
{
    let s = "I am injected into the closure!".to_owned();
    proof {
        reveal_strlit("I am injected into the closure!");
    }
    func(s);
}

} // verus!
