//! The course of a render: what is done in which order, and what is reported on the way.

use vstd::prelude::*;

use crate::events::IPCEvent;
use crate::frames::{plan_round, round_of, rounds, Round, PIXEL_BUFFERS};
use crate::ieee::Double;

verus! {

/// What is to be done next.
#[derive(Clone, Copy, PartialEq, Eq, Structural, Debug)]
pub enum Action {
    /// Report progress.
    Send(IPCEvent),
    /// Mix the track, store it and measure the video.
    MixTrack,
    /// Look at the codecs of ffmpeg and start the encoder.
    OpenEncoder,
    /// Draw a frame and hand a buffer to the encoder.
    Draw(Round),
    /// Close the encoder, wait for it and take the time.
    CloseEncoder,
    /// The render is over.
    Stop,
}

/// What came of the action before.
#[derive(Clone, Copy, PartialEq, Eq, Structural, Debug)]
pub enum Outcome {
    /// It is done.
    Done,
    /// The track is mixed, and the video has this many frames.
    Mixed(u64),
    /// The encoder is closed, this many seconds after the start.
    Closed(Double),
}

/// The action number `k` of a render of `frames` frames that takes `elapsed` seconds: the
/// mixing, the announcement of the frames, the encoder, the announcement again, a drawing and
/// a report for each round, and the end.
pub open spec fn action_at(frames: int, elapsed: Double, k: int) -> Action {
    if k == 0 {
        Action::Send(IPCEvent::StartMixing)
    } else if k == 1 {
        Action::MixTrack
    } else if k == 2 || k == 4 {
        Action::Send(IPCEvent::StartRender(frames as u64))
    } else if k == 3 {
        Action::OpenEncoder
    } else if k < 5 + 2 * rounds(frames) {
        if k % 2 == 1 {
            Action::Draw(round_of(PIXEL_BUFFERS + (k - 5) / 2))
        } else {
            Action::Send(IPCEvent::Frame)
        }
    } else if k == 5 + 2 * rounds(frames) {
        Action::CloseEncoder
    } else if k == 6 + 2 * rounds(frames) {
        Action::Send(IPCEvent::Done(elapsed))
    } else {
        Action::Stop
    }
}

/// Where a render stands: the action that comes next.
enum Phase {
    ReportMixing,
    Mix,
    Announce,
    Open,
    AnnounceAgain,
    Draw(u64),
    Report(u64),
    ReportDone,
    Over,
}

/// The course of one render.
pub struct Session {
    frames: u64,
    elapsed: Double,
    phase: Phase,
}

impl Session {
    /// The number of frames of the video, once the track is mixed.
    pub closed spec fn frames(self) -> int {
        self.frames as int
    }

    /// The seconds that the render took, once it is over.
    pub closed spec fn elapsed(self) -> Double {
        self.elapsed
    }

    /// The number of actions given so far, the stop not counted.
    pub closed spec fn taken(self) -> int {
        match self.phase {
            Phase::ReportMixing => 0,
            Phase::Mix => 1,
            Phase::Announce => 2,
            Phase::Open => 3,
            Phase::AnnounceAgain => 4,
            Phase::Draw(frame) => 5 + 2 * (frame - PIXEL_BUFFERS),
            Phase::Report(frame) => 6 + 2 * (frame - PIXEL_BUFFERS),
            Phase::ReportDone => 6 + 2 * rounds(self.frames()),
            Phase::Over => 7 + 2 * rounds(self.frames()),
        }
    }

    /// The track was to be mixed, so the number of frames is due.
    pub open spec fn awaits_frames(self) -> bool {
        self.taken() == 2
    }

    /// The encoder was to be closed, so the time is due.
    pub open spec fn awaits_time(self) -> bool {
        self.taken() == 6 + 2 * rounds(self.frames())
    }

    /// The session stands at one of its actions.
    pub closed spec fn well_formed(self) -> bool {
        &&& self.frames <= u64::MAX - PIXEL_BUFFERS
        &&& match self.phase {
            Phase::Draw(frame) => PIXEL_BUFFERS <= frame <= PIXEL_BUFFERS + rounds(self.frames()),
            Phase::Report(frame) => PIXEL_BUFFERS <= frame < PIXEL_BUFFERS + rounds(self.frames()),
            _ => true,
        }
    }

    /// Starts a render.
    pub fn new() -> (session: Session)
        ensures
            session.well_formed(),
            session.taken() == 0,
            session.frames() == 0,
            session.elapsed() == (Double { bits: 0 }),
    {
        Session { frames: 0, elapsed: Double { bits: 0 }, phase: Phase::ReportMixing }
    }

    /// Gives the next action, from what came of the one before. The stop is given again and
    /// again.
    pub fn next(&mut self, outcome: Outcome) -> (action: Action)
        requires
            old(self).well_formed(),
            old(self).awaits_frames() ==> (outcome matches Outcome::Mixed(frames) && frames
                <= u64::MAX - PIXEL_BUFFERS),
            old(self).awaits_time() ==> outcome is Closed,
        ensures
            final(self).well_formed(),
            action == action_at(final(self).frames(), final(self).elapsed(), old(self).taken()),
            final(self).taken() == old(self).taken() + if action is Stop {
                0int
            } else {
                1
            },
            final(self).frames() == if old(self).awaits_frames() {
                outcome->Mixed_0 as int
            } else {
                old(self).frames()
            },
            final(self).elapsed() == if old(self).awaits_time() {
                outcome->Closed_0
            } else {
                old(self).elapsed()
            },
            action matches Action::Draw(round) ==> {
                &&& 2 * round.frame == old(self).taken() + 1
                &&& round.write_slot == round.frame % 3
                &&& round.read_slot == (round.frame + 1) % 3
            },
            action is Draw <==> old(self).taken() >= 5 && old(self).taken() % 2 == 1
                && old(self).taken() < 3 + 2 * old(self).frames(),
            action == Action::Send(IPCEvent::Frame) <==> old(self).taken() >= 6
                && old(self).taken() % 2 == 0 && old(self).taken() < 4 + 2 * old(self).frames(),
            action matches Action::Send(IPCEvent::StartRender(frames)) ==> frames
                == final(self).frames(),
            action matches Action::Send(IPCEvent::Done(elapsed)) ==> outcome
                == Outcome::Closed(elapsed),
    {
        match self.phase {
            Phase::ReportMixing => {
                self.phase = Phase::Mix;
                Action::Send(IPCEvent::StartMixing)
            },
            Phase::Mix => {
                self.phase = Phase::Announce;
                Action::MixTrack
            },
            Phase::Announce => {
                if let Outcome::Mixed(frames) = outcome {
                    self.frames = frames;
                }
                self.phase = Phase::Open;
                Action::Send(IPCEvent::StartRender(self.frames))
            },
            Phase::Open => {
                self.phase = Phase::AnnounceAgain;
                Action::OpenEncoder
            },
            Phase::AnnounceAgain => {
                self.phase = Phase::Draw(PIXEL_BUFFERS);
                Action::Send(IPCEvent::StartRender(self.frames))
            },
            Phase::Draw(frame) => {
                if frame < self.frames + (PIXEL_BUFFERS - 1) {
                    self.phase = Phase::Report(frame);
                    Action::Draw(plan_round(frame))
                } else {
                    self.phase = Phase::ReportDone;
                    Action::CloseEncoder
                }
            },
            Phase::Report(frame) => {
                self.phase = Phase::Draw(frame + 1);
                Action::Send(IPCEvent::Frame)
            },
            Phase::ReportDone => {
                if let Outcome::Closed(elapsed) = outcome {
                    self.elapsed = elapsed;
                }
                self.phase = Phase::Over;
                Action::Send(IPCEvent::Done(self.elapsed))
            },
            Phase::Over => Action::Stop,
        }
    }
}

/// The reports among the first `n` actions of a render, in order.
pub open spec fn reports(frames: int, elapsed: Double, n: nat) -> Seq<IPCEvent>
    decreases n,
{
    if n == 0 {
        Seq::empty()
    } else {
        let before = reports(frames, elapsed, (n - 1) as nat);
        match action_at(frames, elapsed, n - 1) {
            Action::Send(event) => before.push(event),
            _ => before,
        }
    }
}

/// The reports up to and with round `j`.
proof fn lemma_reports_of_rounds(frames: int, elapsed: Double, j: int)
    requires
        0 <= j <= rounds(frames),
    ensures
        reports(frames, elapsed, (5 + 2 * j) as nat) == seq![
            IPCEvent::StartMixing,
            IPCEvent::StartRender(frames as u64),
            IPCEvent::StartRender(frames as u64),
        ] + Seq::new(j as nat, |i: int| IPCEvent::Frame),
    decreases j,
{
    if j == 0 {
        reveal_with_fuel(reports, 6);
    } else {
        lemma_reports_of_rounds(frames, elapsed, j - 1);
        reveal_with_fuel(reports, 3);
    }
}

/// A render reports that it mixes, how many frames there are, once before and once after the
/// encoder is started, then each of its rounds, and last how long it took; and nothing else.
pub proof fn law_reports(frames: int, elapsed: Double, n: nat)
    requires
        0 <= frames,
        n >= 7 + 2 * rounds(frames),
    ensures
        reports(frames, elapsed, n) == seq![
            IPCEvent::StartMixing,
            IPCEvent::StartRender(frames as u64),
            IPCEvent::StartRender(frames as u64),
        ] + Seq::new(
            (if frames == 0 {
                0
            } else {
                frames - 1
            }) as nat,
            |i: int| IPCEvent::Frame,
        ) + seq![IPCEvent::Done(elapsed)],
    decreases n,
{
    if n == 7 + 2 * rounds(frames) {
        lemma_reports_of_rounds(frames, elapsed, rounds(frames));
        reveal_with_fuel(reports, 3);
    } else {
        law_reports(frames, elapsed, (n - 1) as nat);
    }
}

/// Every round is drawn once, in order and between the start and the end of the encoder: drawing
/// number `j` is of frame `3 + j`, copied to buffer `j` modulo 3 while the next one is delivered,
/// and a video that has frames has one drawing less than it has frames.
pub proof fn law_rounds_in_order(frames: int, elapsed: Double)
    requires
        0 <= frames <= u64::MAX - PIXEL_BUFFERS,
    ensures
        action_at(frames, elapsed, 1) == Action::MixTrack,
        action_at(frames, elapsed, 3) == Action::OpenEncoder,
        forall|j: int|
            0 <= j < rounds(frames) ==> #[trigger] action_at(frames, elapsed, 5 + 2 * j)
                == Action::Draw(round_of(PIXEL_BUFFERS + j)),
        forall|j: int|
            0 <= j < frames - 1 ==> #[trigger] action_at(frames, elapsed, 5 + 2 * j)
                == Action::Draw(
                Round {
                    frame: (3 + j) as u64,
                    write_slot: (j % 3) as usize,
                    read_slot: ((j + 1) % 3) as usize,
                },
            ),
        forall|k: int|
            k >= 0 && #[trigger] action_at(frames, elapsed, k) is Draw ==> k % 2 == 1 && 5 <= k < 3
                + 2 * frames,
        action_at(frames, elapsed, 5 + 2 * rounds(frames)) == Action::CloseEncoder,
        frames >= 1 ==> action_at(frames, elapsed, 3 + 2 * frames) == Action::CloseEncoder,
        frames >= 1 ==> forall|k: int|
            k >= 0 && #[trigger] action_at(frames, elapsed, k) is CloseEncoder ==> k == 3 + 2
                * frames,
{
}

/// A video of one frame or none is opened and closed without a drawing.
pub proof fn law_no_rounds(frames: int, elapsed: Double, k: int)
    requires
        0 <= frames <= 1,
        0 <= k,
    ensures
        !(action_at(frames, elapsed, k) is Draw),
        action_at(frames, elapsed, k) is OpenEncoder <==> k == 3,
        action_at(frames, elapsed, k) is CloseEncoder <==> k == 5,
{
}

/// The frames of successive drawings differ by one, and each drawing copies to the buffer that was
/// delivered in the drawing before.
pub proof fn law_drawings_follow_each_other(frames: int, elapsed: Double, k: int)
    requires
        0 <= frames <= u64::MAX - PIXEL_BUFFERS,
        0 <= k,
        action_at(frames, elapsed, k) is Draw,
        action_at(frames, elapsed, k + 2) is Draw,
    ensures
        action_at(frames, elapsed, k + 2)->Draw_0.frame == action_at(
            frames,
            elapsed,
            k,
        )->Draw_0.frame + 1,
        action_at(frames, elapsed, k + 2)->Draw_0.write_slot == action_at(
            frames,
            elapsed,
            k,
        )->Draw_0.read_slot,
        action_at(frames, elapsed, k + 1) == Action::Send(IPCEvent::Frame),
{
}

/// A render is over after its last report, for good.
pub proof fn law_stop_is_final(frames: int, elapsed: Double, k: int)
    requires
        0 <= frames,
        k >= 7 + 2 * rounds(frames),
    ensures
        action_at(frames, elapsed, k) == Action::Stop,
{
}

} // verus!
