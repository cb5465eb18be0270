//! Streaming of ASCII-coded audio samples: the sample codec, the batching of
//! decoded bytes for the network, the session header, the sample queue between
//! decoding and playback, and the playback fill with its underrun rule.

use vstd::prelude::*;

pub mod codec;
pub mod header;
pub mod queue;
pub mod framer;
pub mod playback;
pub mod session;

verus! {

} // verus!
