//! The UART may disappear or stop responding while reporting an exception.
//! Bounded polling lets the caller abandon output and finish fault handling.
use vstd::prelude::*;

verus! {

pub const TRANSMIT_POLLS: usize = 16_384;

/// `answers` is what successive polls of `ready` may have answered: each
/// answer is one that `ready` can give, and every answer but the last was
/// "not ready".
pub open spec fn poll_trace<F: FnMut() -> bool>(ready: F, answers: Seq<bool>) -> bool {
    &&& forall|k: int| 0 <= k < answers.len() ==> call_ensures(ready, (), #[trigger] answers[k])
    &&& forall|k: int| 0 <= k < answers.len() - 1 ==> !#[trigger] answers[k]
}

/// Polls `ready` at most `TRANSMIT_POLLS` times and stops at the first
/// `true`: the result is the last answer, and a `false` result comes only
/// after the whole budget was spent.
pub fn wait_ready<F: FnMut() -> bool>(mut ready: F) -> (r: bool)
    requires
        forall|f: F| call_requires(f, ()),
    ensures
        exists|answers: Seq<bool>|
            {
                &&& poll_trace(ready, answers)
                &&& 1 <= answers.len() <= TRANSMIT_POLLS
                &&& r == answers.last()
                &&& !r ==> answers.len() == TRANSMIT_POLLS
            },
{
    let ghost start = ready;
    let ghost mut answers: Seq<bool> = Seq::empty();
    let mut i: usize = 0;
    let mut found = false;
    while i < TRANSMIT_POLLS && !found
        invariant
            i <= TRANSMIT_POLLS,
            forall|f: F| call_requires(f, ()),
            ready == start,
            answers.len() == i,
            i > 0 ==> answers.last() == found,
            i == 0 ==> !found,
            forall|k: int| 0 <= k < answers.len() ==> call_ensures(start, (), #[trigger] answers[k]),
            forall|k: int| 0 <= k < answers.len() - 1 ==> !#[trigger] answers[k],
            !found ==> forall|k: int| 0 <= k < answers.len() ==> !#[trigger] answers[k],
        decreases TRANSMIT_POLLS - i,
    {
        let answer = ready();
        proof {
            answers = answers.push(answer);
        }
        found = answer;
        i += 1;
    }
    assert(poll_trace(start, answers));
    found
}

} // verus!
