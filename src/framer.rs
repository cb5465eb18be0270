use vstd::prelude::*;
use crate::codec::{decode_buffer, le_stream, samples_of};

verus! {

/// Number of pending bytes at which a batch is sent.
pub const FLUSH_THRESHOLD: usize = 512;

/// Accumulates decoded sample bytes and releases them in batches of at least
/// `FLUSH_THRESHOLD` bytes, so that the network sees few large writes.
pub struct Batcher {
    buf: Vec<u8>,
}

impl View for Batcher {
    type V = Seq<u8>;

    closed spec fn view(&self) -> Seq<u8> {
        self.buf@
    }
}

/// What a line leaves pending before any flush.
pub open spec fn accumulated(pending: Seq<u8>, line: Seq<u8>) -> Seq<u8> {
    pending + le_stream(samples_of(line))
}

impl Batcher {
    /// Between lines, fewer than `FLUSH_THRESHOLD` bytes are pending.
    pub open spec fn wf(&self) -> bool {
        self@.len() < FLUSH_THRESHOLD
    }

    /// A batcher with nothing pending.
    pub fn new() -> (r: Batcher)
        ensures
            r@ == Seq::<u8>::empty(),
            r.wf(),
    {
        Batcher { buf: Vec::new() }
    }

    /// Number of bytes pending.
    pub fn pending_len(&self) -> (r: usize)
        ensures
            r == self@.len(),
    {
        self.buf.len()
    }

    /// Decodes a line into the pending bytes. When they reach the threshold,
    /// all of them are returned as one batch and nothing stays pending;
    /// below it, nothing is returned.
    pub fn push_line(&mut self, line: &[u8]) -> (r: Option<Vec<u8>>)
        requires
            old(self).wf(),
        ensures
            final(self).wf(),
            accumulated(old(self)@, line@).len() >= FLUSH_THRESHOLD ==> (r matches Some(b) && b@
                == accumulated(old(self)@, line@)) && final(self)@ == Seq::<u8>::empty(),
            accumulated(old(self)@, line@).len() < FLUSH_THRESHOLD ==> r is None && final(self)@
                == accumulated(old(self)@, line@),
    {
        decode_buffer(line, &mut self.buf);
        if self.buf.len() >= FLUSH_THRESHOLD {
            let mut batch: Vec<u8> = Vec::new();
            core::mem::swap(&mut self.buf, &mut batch);
            Some(batch)
        } else {
            None
        }
    }
}

} // verus!
