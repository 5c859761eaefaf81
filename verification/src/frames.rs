//! The rounds of the frame loop: which pixel buffer a frame is copied to, which buffer is
//! handed to the encoder meanwhile, and which render target is used.

use vstd::prelude::*;

verus! {

/// The number of pixel buffers, which take turns.
pub const PIXEL_BUFFERS: u64 = 3;

/// The buffer that a frame is copied to.
pub open spec fn copied_to(frame: int) -> int {
    frame % PIXEL_BUFFERS as int
}

/// The buffer that is handed to the encoder while a frame is drawn.
pub open spec fn delivered_from(frame: int) -> int {
    (frame + 1) % PIXEL_BUFFERS as int
}

/// The number of rounds that a video of `frames` frames takes.
pub open spec fn rounds(frames: int) -> int {
    if frames == 0 {
        0
    } else {
        frames - 1
    }
}

/// One round of the loop.
#[derive(Clone, Copy, PartialEq, Eq, Structural, Debug)]
pub struct Round {
    /// The number of the frame to draw; its time is that many frame lengths.
    pub frame: u64,
    /// The buffer to copy it to.
    pub write_slot: usize,
    /// The buffer to hand to the encoder.
    pub read_slot: usize,
}

/// The round in which a frame is drawn.
pub open spec fn round_of(frame: int) -> Round {
    Round {
        frame: frame as u64,
        write_slot: copied_to(frame) as usize,
        read_slot: delivered_from(frame) as usize,
    }
}

/// Plans the round in which a frame is drawn.
pub fn plan_round(frame: u64) -> (round: Round)
    requires
        frame < u64::MAX,
    ensures
        round == round_of(frame as int),
        round.frame == frame,
        round.write_slot == frame % 3,
        round.read_slot == (frame + 1) % 3,
{
    Round {
        frame,
        write_slot: (frame % PIXEL_BUFFERS) as usize,
        read_slot: ((frame + 1) % PIXEL_BUFFERS) as usize,
    }
}

/// The number of bytes of one frame: four per picture point.
pub fn frame_bytes(resolution: (u32, u32)) -> (bytes: usize)
    requires
        resolution.0 * resolution.1 * 4 <= usize::MAX,
    ensures
        bytes == resolution.0 * resolution.1 * 4,
{
    assert(resolution.0 * resolution.1 <= usize::MAX) by (nonlinear_arith)
        requires
            resolution.0 * resolution.1 * 4 <= usize::MAX,
    ;
    let points: usize = resolution.0 as usize * resolution.1 as usize;
    points * 4
}

/// The part of the window that is drawn to: all of it.
pub fn viewport(resolution: (u32, u32)) -> (area: (i32, i32, i32, i32))
    ensures
        area == (0i32, 0i32, resolution.0 as i32, resolution.1 as i32),
{
    (
        0,
        0,
        #[verifier::truncate]
        (resolution.0 as i32),
        #[verifier::truncate]
        (resolution.1 as i32),
    )
}

/// The two sides of a multisampled render target.
#[derive(Clone, Copy, PartialEq, Eq, Structural, Debug)]
pub enum Target {
    /// The side with several samples per point, which must be resolved.
    Input,
    /// The resolved side.
    Output,
}

/// The target that request number `n` for one is answered with.
pub open spec fn target_of(n: int) -> Target {
    if n == 1 || n == 3 {
        Target::Input
    } else {
        Target::Output
    }
}

/// Answers the requests for a render target.
pub struct TargetSelector {
    requests: i32,
}

impl TargetSelector {
    /// The number of requests answered.
    pub closed spec fn requests(self) -> int {
        self.requests as int
    }

    /// Starts before the first request.
    pub fn new() -> (selector: TargetSelector)
        ensures
            selector.requests() == 0,
    {
        TargetSelector { requests: 0 }
    }

    /// Tells how many requests were answered.
    pub fn answered(&self) -> (n: i32)
        ensures
            n == self.requests(),
    {
        self.requests
    }

    /// Answers a request.
    pub fn next(&mut self) -> (target: Target)
        requires
            old(self).requests() < i32::MAX,
        ensures
            final(self).requests() == old(self).requests() + 1,
            target == target_of(final(self).requests()),
            target is Input <==> old(self).requests() == 0 || old(self).requests() == 2,
    {
        self.requests = self.requests + 1;
        if self.requests == 1 || self.requests == 3 {
            Target::Input
        } else {
            Target::Output
        }
    }
}

/// Whether the target must be resolved before it is read: where the last answer was the side
/// with several samples.
pub fn needs_resolve(last: Option<Target>) -> (r: bool)
    ensures
        r == (last == Some(Target::Input)),
{
    match last {
        Some(Target::Input) => true,
        _ => false,
    }
}

/// In each round the buffer that is read is another than the one that is written.
pub proof fn law_no_buffer_conflict(frame: int)
    ensures
        copied_to(frame) != delivered_from(frame),
        0 <= copied_to(frame) < PIXEL_BUFFERS,
        0 <= delivered_from(frame) < PIXEL_BUFFERS,
{
}

/// From the third round on, what is handed to the encoder is the frame copied two rounds before,
/// since nothing was copied over it meanwhile; and its buffer is the next one to be written.
pub proof fn law_delivery_lags_two_rounds(frame: int)
    requires
        frame >= PIXEL_BUFFERS + 2,
    ensures
        delivered_from(frame) == copied_to(frame - 2),
        forall|later: int|
            frame - 2 < later <= frame ==> #[trigger] copied_to(later) != delivered_from(frame),
        delivered_from(frame) == copied_to(frame + 1),
{
}

/// In the first two rounds the buffer that is handed to the encoder is one that no frame was
/// copied to yet.
pub proof fn law_first_deliveries_are_blank(frame: int)
    requires
        PIXEL_BUFFERS <= frame < PIXEL_BUFFERS + 2,
    ensures
        forall|drawn: int|
            PIXEL_BUFFERS <= drawn <= frame ==> #[trigger] copied_to(drawn) != delivered_from(
                frame,
            ),
{
}

/// The round of a frame draws that very frame, and the buffers go round in threes.
pub proof fn law_round_draws_its_frame(frame: int)
    requires
        0 <= frame <= u64::MAX,
    ensures
        round_of(frame).frame == frame,
        round_of(frame).write_slot == frame % 3,
        round_of(frame).read_slot == (frame + 1) % 3,
        copied_to(frame) == frame % 3,
        delivered_from(frame) == (frame + 1) % 3,
{
}

/// Different frames are drawn in different rounds.
pub proof fn law_rounds_differ(a: u64, b: u64)
    ensures
        round_of(a as int) == round_of(b as int) <==> a == b,
        b == a + 1 ==> round_of(b as int).frame == round_of(a as int).frame + 1,
        b == a + 1 ==> round_of(b as int).write_slot == round_of(a as int).read_slot,
{
}

/// A video takes one round less than it has frames, and none where it has none.
pub proof fn law_number_of_rounds(frames: int)
    requires
        0 <= frames,
    ensures
        frames >= 1 ==> rounds(frames) == frames - 1,
        frames <= 1 ==> rounds(frames) == 0,
{
}

/// The first and the third request for a target are answered with the side that must be resolved,
/// all others with the resolved one.
pub proof fn law_targets(n: int)
    ensures
        target_of(n) is Input <==> n == 1 || n == 3,
        target_of(n) is Output <==> n != 1 && n != 3,
{
}

} // verus!
