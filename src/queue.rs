use vstd::prelude::*;
use std::collections::VecDeque;
use crate::codec::{decode_sample, samples_of};

verus! {

/// Unbounded FIFO of decoded samples between the decode side and playback.
pub struct SampleQueue {
    items: VecDeque<i16>,
}

impl View for SampleQueue {
    type V = Seq<i16>;

    closed spec fn view(&self) -> Seq<i16> {
        self.items@
    }
}

impl SampleQueue {
    /// An empty queue.
    pub fn new() -> (r: SampleQueue)
        ensures
            r@ == Seq::<i16>::empty(),
    {
        SampleQueue { items: VecDeque::new() }
    }

    /// Number of pending samples.
    pub fn len(&self) -> (r: usize)
        ensures
            r == self@.len(),
    {
        self.items.len()
    }

    /// Whether no sample is pending.
    pub fn is_empty(&self) -> (r: bool)
        ensures
            r <==> self@.len() == 0,
    {
        self.items.len() == 0
    }

    /// Appends one sample at the back.
    pub fn push(&mut self, s: i16)
        ensures
            final(self)@ == old(self)@.push(s),
    {
        self.items.push_back(s);
    }

    /// Removes the oldest sample; on an empty queue returns `None` and changes nothing.
    pub fn try_pop(&mut self) -> (r: Option<i16>)
        ensures
            old(self)@.len() == 0 ==> r is None && final(self)@ == old(self)@,
            old(self)@.len() > 0 ==> r == Some(old(self)@[0]) && final(self)@ == old(self)@.drop_first(),
    {
        self.items.pop_front()
    }

    /// Decodes a line of code pairs and appends its samples in order.
    pub fn push_line(&mut self, line: &[u8])
        ensures
            final(self)@ == old(self)@ + samples_of(line@),
    {
        let len: usize = line.len();
        let n: usize = len / 2;
        let mut k: usize = 0;
        while k < n
            invariant
                len == line@.len(),
                n == len / 2,
                2 * n <= len,
                k <= n,
                self@ =~= old(self)@ + samples_of(line@).take(k as int),
            decreases n - k,
        {
            let s = decode_sample(line[2 * k], line[2 * k + 1]);
            self.push(s);
            k = k + 1;
        }
        assert(samples_of(line@).take(n as int) =~= samples_of(line@));
    }
}

/// The queue after pushing each of `xs` in turn onto `q`.
pub open spec fn pushed_all(q: Seq<i16>, xs: Seq<i16>) -> Seq<i16>
    decreases xs.len(),
{
    if xs.len() == 0 {
        q
    } else {
        pushed_all(q, xs.drop_last()).push(xs.last())
    }
}

/// The values returned by `n` successive pops from `q`.
pub open spec fn popped(q: Seq<i16>, n: nat) -> Seq<i16>
    decreases n,
{
    if n == 0 || q.len() == 0 {
        Seq::empty()
    } else {
        seq![q[0]] + popped(q.drop_first(), (n - 1) as nat)
    }
}

/// The queue left after `n` successive pops from `q`.
pub open spec fn remaining(q: Seq<i16>, n: nat) -> Seq<i16>
    decreases n,
{
    if n == 0 || q.len() == 0 {
        q
    } else {
        remaining(q.drop_first(), (n - 1) as nat)
    }
}

proof fn lemma_pushed_all(q: Seq<i16>, xs: Seq<i16>)
    ensures
        pushed_all(q, xs) == q + xs,
    decreases xs.len(),
{
    if xs.len() > 0 {
        lemma_pushed_all(q, xs.drop_last());
        assert(q + xs =~= (q + xs.drop_last()).push(xs.last()));
    }
}

proof fn lemma_pop_all(q: Seq<i16>)
    ensures
        popped(q, q.len()) == q,
        remaining(q, q.len()) == Seq::<i16>::empty(),
    decreases q.len(),
{
    if q.len() > 0 {
        lemma_pop_all(q.drop_first());
        assert(seq![q[0]] + q.drop_first() =~= q);
    }
}

/// First in, first out: pushing `xs` onto an empty queue and then popping as many
/// times returns exactly `xs`, in order, and leaves the queue empty.
pub proof fn lemma_fifo(xs: Seq<i16>)
    ensures
        popped(pushed_all(Seq::empty(), xs), xs.len()) == xs,
        remaining(pushed_all(Seq::empty(), xs), xs.len()) == Seq::<i16>::empty(),
{
    lemma_pushed_all(Seq::empty(), xs);
    assert(Seq::<i16>::empty() + xs =~= xs);
    lemma_pop_all(xs);
}

} // verus!
