//! Staying subscribed to the errors that the collector announces.

use vstd::prelude::*;

verus! {

/// How long to wait, in milliseconds, after the collector could not be reached.
pub const DIAL_RETRY_MS: u64 = 1000;

/// How long to wait, in milliseconds, after an established stream ended. It is
/// shorter, so that a restarted collector is found again soon.
pub const STREAM_RETRY_MS: u64 = 500;

/// What the subscriber does next.
#[derive(Clone, Copy, Debug, PartialEq, Eq, Structural)]
pub enum Step {
    /// Make out the endpoint.
    Resolve,
    /// Connect to the collector's socket.
    Dial,
    /// Ask for the stream of errors.
    Subscribe,
    /// Wait for the next error on the stream.
    Receive,
    /// Hand the error on.
    Forward,
    /// Wait so many milliseconds.
    Pause(u64),
    /// Leave.
    Stop,
}

/// What comes after a step that worked or failed.
pub open spec fn following(step: Step, worked: bool) -> Step {
    match (step, worked) {
        (Step::Resolve, true) => Step::Dial,
        (Step::Resolve, false) => Step::Stop,
        (Step::Dial, true) => Step::Subscribe,
        (Step::Dial, false) => Step::Pause(DIAL_RETRY_MS),
        (Step::Subscribe, true) => Step::Receive,
        (Step::Subscribe, false) => Step::Pause(DIAL_RETRY_MS),
        (Step::Receive, true) => Step::Forward,
        (Step::Receive, false) => Step::Pause(STREAM_RETRY_MS),
        (Step::Forward, true) => Step::Receive,
        (Step::Forward, false) => Step::Stop,
        (Step::Pause(_), _) => Step::Resolve,
        (Step::Stop, _) => Step::Stop,
    }
}

/// The step to begin with.
pub fn first_step() -> (r: Step)
    ensures
        r == Step::Resolve,
{
    Step::Resolve
}

/// What to do after a step that worked or failed.
pub fn next_step(step: Step, worked: bool) -> (r: Step)
    ensures
        r == following(step, worked),
{
    match step {
        Step::Resolve => if worked {
            Step::Dial
        } else {
            Step::Stop
        },
        Step::Dial => if worked {
            Step::Subscribe
        } else {
            Step::Pause(DIAL_RETRY_MS)
        },
        Step::Subscribe => if worked {
            Step::Receive
        } else {
            Step::Pause(DIAL_RETRY_MS)
        },
        Step::Receive => if worked {
            Step::Forward
        } else {
            Step::Pause(STREAM_RETRY_MS)
        },
        Step::Forward => if worked {
            Step::Receive
        } else {
            Step::Stop
        },
        Step::Pause(_) => Step::Resolve,
        Step::Stop => Step::Stop,
    }
}

/// The step that comes after these results of the steps before it.
pub open spec fn step_after(results: Seq<bool>) -> Step
    decreases results.len(),
{
    if results.len() == 0 {
        Step::Resolve
    } else {
        following(step_after(results.drop_last()), results.last())
    }
}

/// The subscriber never gives the collector up: it leaves only when there is no
/// endpoint to be made out, or when nobody takes its errors any more.
pub proof fn law_retried_forever(results: Seq<bool>)
    requires
        results.len() > 0,
        step_after(results) == Step::Stop,
        step_after(results.drop_last()) != Step::Stop,
    ensures
        !results.last(),
        step_after(results.drop_last()) == Step::Resolve || step_after(results.drop_last())
            == Step::Forward,
{
}

/// Whatever goes wrong with the collector, the subscriber dials again after a pause.
pub proof fn law_dialed_again(step: Step, after_pause: bool)
    requires
        step == Step::Dial || step == Step::Subscribe || step == Step::Receive,
    ensures
        following(step, false) is Pause,
        following(following(step, false), after_pause) == Step::Resolve,
        following(following(following(step, false), after_pause), true) == Step::Dial,
{
}

/// Every error that is received is handed on before the next one is waited for, and
/// nothing is handed on that was not just received.
pub proof fn law_each_error_is_handed_on_once(results: Seq<bool>)
    requires
        results.len() > 0,
    ensures
        step_after(results) == Step::Forward <==> step_after(results.drop_last()) == Step::Receive
            && results.last(),
{
}

/// The subscriber makes out the endpoint, dials, subscribes, and then receives errors and
/// hands each on. Where the collector cannot be reached it waits a second, where a stream
/// ends half a second, and then begins anew.
pub proof fn law_course_of_the_subscriber(ms: u64, worked: bool)
    ensures
        step_after(Seq::empty()) == Step::Resolve,
        following(Step::Resolve, true) == Step::Dial,
        following(Step::Dial, true) == Step::Subscribe,
        following(Step::Subscribe, true) == Step::Receive,
        following(Step::Receive, true) == Step::Forward,
        following(Step::Forward, true) == Step::Receive,
        following(Step::Resolve, false) == Step::Stop,
        following(Step::Dial, false) == Step::Pause(1000),
        following(Step::Subscribe, false) == Step::Pause(1000),
        following(Step::Receive, false) == Step::Pause(500),
        following(Step::Forward, false) == Step::Stop,
        following(Step::Pause(ms), worked) == Step::Resolve,
        following(Step::Stop, worked) == Step::Stop,
{
}

} // verus!
