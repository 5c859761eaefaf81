//! What a render reports to the process that started it.

use vstd::prelude::*;

use crate::ieee::Double;

verus! {

/// A report of progress.
#[derive(Clone, Copy, PartialEq, Eq, Structural, Debug)]
pub enum IPCEvent {
    /// The track is being mixed.
    StartMixing,
    /// The video has this many frames.
    StartRender(u64),
    /// One more frame was handed to the encoder.
    Frame,
    /// The video is done, after this many seconds.
    Done(Double),
}

} // verus!
