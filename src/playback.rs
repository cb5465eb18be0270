use vstd::prelude::*;
use crate::queue::SampleQueue;

verus! {

/// What the playback callback does on one invocation.
#[derive(Clone, Copy, Debug, PartialEq, Eq, Structural)]
pub enum PlaybackOutcome {
    /// The producer reported a fatal read error: stop the session.
    Terminate,
    /// This many leading output slots were filled from the queue.
    Filled(usize),
}

/// Number of slots that one fill serves: the requested block, or what is queued if less.
pub open spec fn fill_count(requested: nat, queued: nat) -> nat {
    if requested <= queued {
        requested
    } else {
        queued
    }
}

/// Fills the output block front to back from the queue. At the first empty pop the
/// fill stops: the remaining slots keep what they held, and nothing blocks.
pub fn fill_output(q: &mut SampleQueue, out: &mut Vec<i16>) -> (n: usize)
    ensures
        n == fill_count(old(out)@.len(), old(q)@.len()),
        final(out)@ == old(q)@.take(n as int) + old(out)@.skip(n as int),
        final(q)@ == old(q)@.skip(n as int),
{
    let len: usize = out.len();
    let mut i: usize = 0;
    while i < len
        invariant
            len == old(out)@.len(),
            out@.len() == len,
            i <= len,
            i <= old(q)@.len(),
            q@ == old(q)@.skip(i as int),
            out@ =~= old(q)@.take(i as int) + old(out)@.skip(i as int),
        ensures
            i == fill_count(old(out)@.len(), old(q)@.len()),
            q@ == old(q)@.skip(i as int),
            out@ =~= old(q)@.take(i as int) + old(out)@.skip(i as int),
        decreases len - i,
    {
        match q.try_pop() {
            Some(s) => {
                out.set(i, s);
                i = i + 1;
            },
            None => {
                break;
            },
        }
    }
    i
}

/// One invocation of the playback callback: first checks the producer's failure
/// flag, then fills the block from the queue.
pub fn on_output_request(producer_failed: bool, q: &mut SampleQueue, out: &mut Vec<i16>) -> (r:
    PlaybackOutcome)
    ensures
        producer_failed ==> r == PlaybackOutcome::Terminate && final(q)@ == old(q)@ && final(out)@
            == old(out)@,
        !producer_failed ==> r == PlaybackOutcome::Filled(
            fill_count(old(out)@.len(), old(q)@.len()) as usize,
        ),
        !producer_failed ==> final(out)@ == old(q)@.take(fill_count(old(out)@.len(), old(q)@.len()) as int)
            + old(out)@.skip(fill_count(old(out)@.len(), old(q)@.len()) as int),
        !producer_failed ==> final(q)@ == old(q)@.skip(fill_count(old(out)@.len(), old(q)@.len()) as int),
{
    if producer_failed {
        PlaybackOutcome::Terminate
    } else {
        PlaybackOutcome::Filled(fill_output(q, out))
    }
}

} // verus!
