//! Mixing of the music, the note sounds and the ending jingle into one interleaved stereo
//! track. The arithmetic on samples is handed in, so a sample can be of any type; what is
//! settled here is which sample of which sound lands in which slot of the track.

use vstd::prelude::*;

use crate::ieee::{Double, Single};

verus! {

/// The arithmetic of a mix.
pub struct Arithmetic<L, D, A> {
    /// The gain that a volume setting stands for.
    pub level: L,
    /// The mono sample of a stereo frame.
    pub downmix: D,
    /// Adds to a slot a sample scaled by a gain: takes the slot, the sample and the gain.
    pub accumulate: A,
}

/// The arithmetic is defined on all samples.
pub open spec fn total<T, L, D, A>(arithmetic: Arithmetic<L, D, A>) -> bool where
    L: Fn(Single) -> T,
    D: Fn(T, T) -> T,
    A: Fn(T, T, T) -> T,
 {
    &&& forall|v: Single| call_requires(arithmetic.level, (v,))
    &&& forall|l: T, r: T| call_requires(arithmetic.downmix, (l, r))
    &&& forall|s: T, v: T, g: T| call_requires(arithmetic.accumulate, (s, v, g))
}

/// How many frames of a clip fit into a track from `position` on.
pub open spec fn frames_that_fit(track: int, position: int, clip: int) -> int {
    if position >= track {
        0
    } else if (track - position) / 2 < clip {
        (track - position) / 2
    } else {
        clip
    }
}

/// One frame of a clip was added to two neighbouring slots.
pub open spec fn frame_added<T, L, D, A>(
    arithmetic: Arithmetic<L, D, A>,
    gain: T,
    stereo: bool,
    frame: (T, T),
    before: (T, T),
    after: (T, T),
) -> bool where L: Fn(Single) -> T, D: Fn(T, T) -> T, A: Fn(T, T, T) -> T {
    if stereo {
        &&& call_ensures(arithmetic.accumulate, (before.0, frame.0, gain), after.0)
        &&& call_ensures(arithmetic.accumulate, (before.1, frame.1, gain), after.1)
    } else {
        exists|mono: T|
            {
                &&& #[trigger] call_ensures(arithmetic.downmix, (frame.0, frame.1), mono)
                &&& call_ensures(arithmetic.accumulate, (before.0, mono, gain), after.0)
                &&& call_ensures(arithmetic.accumulate, (before.1, mono, gain), after.1)
            }
    }
}

/// A clip was added to a track from `position` on: as many frames as fit, two slots each, and
/// no other slot changed.
pub open spec fn clip_added<T, L, D, A>(
    arithmetic: Arithmetic<L, D, A>,
    gain: T,
    stereo: bool,
    clip: Seq<(T, T)>,
    position: int,
    before: Seq<T>,
    after: Seq<T>,
) -> bool where L: Fn(Single) -> T, D: Fn(T, T) -> T, A: Fn(T, T, T) -> T {
    let count = frames_that_fit(before.len() as int, position, clip.len() as int);
    &&& after.len() == before.len()
    &&& forall|i: int|
        0 <= i < count ==> frame_added(
            arithmetic,
            gain,
            stereo,
            #[trigger] clip[i],
            (before[position + 2 * i], before[position + 2 * i + 1]),
            (after[position + 2 * i], after[position + 2 * i + 1]),
        )
    &&& forall|j: int|
        0 <= j < before.len() && !(position <= j < position + 2 * count) ==> #[trigger] after[j]
            == before[j]
}

/// Adds a clip to the track from slot `position` on, and returns the number of frames added.
pub fn place<T: Copy, L, D, A>(
    output: &mut Vec<T>,
    position: usize,
    clip: &Vec<(T, T)>,
    gain: T,
    stereo: bool,
    arithmetic: &Arithmetic<L, D, A>,
) -> (count: usize) where L: Fn(Single) -> T, D: Fn(T, T) -> T, A: Fn(T, T, T) -> T
    requires
        total(*arithmetic),
    ensures
        count == frames_that_fit(old(output)@.len() as int, position as int, clip@.len() as int),
        clip_added(
            *arithmetic,
            gain,
            stereo,
            clip@,
            position as int,
            old(output)@,
            final(output)@,
        ),
        count <= clip@.len(),
        position >= old(output)@.len() ==> count == 0,
        position < old(output)@.len() ==> position + 2 * count <= old(output)@.len(),
        position < old(output)@.len() && count < clip@.len() ==> position + 2 * count + 2
            > old(output)@.len(),
        final(output)@.len() == old(output)@.len(),
        stereo ==> forall|i: int|
            0 <= i < count ==> {
                &&& call_ensures(
                    arithmetic.accumulate,
                    (old(output)@[position + 2 * i], (#[trigger] clip@[i]).0, gain),
                    final(output)@[position + 2 * i],
                )
                &&& call_ensures(
                    arithmetic.accumulate,
                    (old(output)@[position + 2 * i + 1], clip@[i].1, gain),
                    final(output)@[position + 2 * i + 1],
                )
            },
        !stereo ==> exists|monos: Seq<T>|
            {
                &&& #[trigger] monos.len() == clip@.len()
                &&& forall|i: int|
                    0 <= i < count ==> {
                        &&& call_ensures(
                            arithmetic.downmix,
                            (clip@[i].0, clip@[i].1),
                            #[trigger] monos[i],
                        )
                        &&& call_ensures(
                            arithmetic.accumulate,
                            (old(output)@[position + 2 * i], monos[i], gain),
                            final(output)@[position + 2 * i],
                        )
                        &&& call_ensures(
                            arithmetic.accumulate,
                            (old(output)@[position + 2 * i + 1], monos[i], gain),
                            final(output)@[position + 2 * i + 1],
                        )
                    }
            },
        forall|j: int|
            0 <= j < old(output)@.len() && !(position <= j < position + 2 * count)
                ==> #[trigger] final(output)@[j] == old(output)@[j],
{
    let track: usize = output.len();
    if position >= track {
        proof {
            if !stereo {
                law_clip_in_mono(*arithmetic, gain, clip@, position as int, old(output)@, output@);
            }
        }
        return 0;
    }
    let room: usize = (track - position) / 2;
    let count: usize = if room < clip.len() {
        room
    } else {
        clip.len()
    };
    let downmix = &arithmetic.downmix;
    let accumulate = &arithmetic.accumulate;
    let mut i: usize = 0;
    while i < count
        invariant
            total(*arithmetic),
            *downmix == arithmetic.downmix,
            *accumulate == arithmetic.accumulate,
            track == old(output)@.len(),
            output@.len() == track,
            position < track,
            count <= clip@.len(),
            position + 2 * count <= track,
            i <= count,
            forall|k: int|
                0 <= k < i ==> frame_added(
                    *arithmetic,
                    gain,
                    stereo,
                    #[trigger] clip@[k],
                    (old(output)@[position + 2 * k], old(output)@[position + 2 * k + 1]),
                    (output@[position + 2 * k], output@[position + 2 * k + 1]),
                ),
            forall|j: int|
                0 <= j < track && !(position <= j < position + 2 * i) ==> #[trigger] output@[j]
                    == old(output)@[j],
        decreases count - i,
    {
        let left: usize = position + i * 2;
        let right: usize = left + 1;
        let frame = clip[i];
        let ghost before = output@;
        if stereo {
            let l = accumulate(output[left], frame.0, gain);
            let r = accumulate(output[right], frame.1, gain);
            output.set(left, l);
            output.set(right, r);
        } else {
            let mono = downmix(frame.0, frame.1);
            let l = accumulate(output[left], mono, gain);
            let r = accumulate(output[right], mono, gain);
            output.set(left, l);
            output.set(right, r);
        }
        i = i + 1;
    }
    proof {
        if !stereo {
            law_clip_in_mono(*arithmetic, gain, clip@, position as int, old(output)@, output@);
        }
    }
    count
}

/// The channel of a frame that slot `i` of an interleaved track belongs to.
pub open spec fn channel<T>(i: int, frame: (T, T)) -> T {
    if i % 2 == 0 {
        frame.0
    } else {
        frame.1
    }
}

/// Music was added to one slot: the channel that the slot belongs to of the frame sampled for
/// it, or silence where the music has no frame.
pub open spec fn music_slot_added<T, S, L, D, A>(
    arithmetic: Arithmetic<L, D, A>,
    sample: S,
    silence: T,
    gain: T,
    i: int,
    before: T,
    after: T,
) -> bool where
    S: Fn(usize) -> Option<(T, T)>,
    L: Fn(Single) -> T,
    D: Fn(T, T) -> T,
    A: Fn(T, T, T) -> T,
 {
    exists|sampled: Option<(T, T)>|
        {
            &&& #[trigger] call_ensures(sample, (i as usize,), sampled)
            &&& call_ensures(
                arithmetic.accumulate,
                (
                    before,
                    match sampled {
                        Some(frame) => channel(i, frame),
                        None => silence,
                    },
                    gain,
                ),
                after,
            )
        }
}

/// Music was added to every slot of a track.
pub open spec fn music_added<T, S, L, D, A>(
    arithmetic: Arithmetic<L, D, A>,
    sample: S,
    silence: T,
    gain: T,
    before: Seq<T>,
    after: Seq<T>,
) -> bool where
    S: Fn(usize) -> Option<(T, T)>,
    L: Fn(Single) -> T,
    D: Fn(T, T) -> T,
    A: Fn(T, T, T) -> T,
 {
    &&& after.len() == before.len()
    &&& forall|i: int|
        0 <= i < before.len() ==> music_slot_added(
            arithmetic,
            sample,
            silence,
            gain,
            i,
            before[i],
            #[trigger] after[i],
        )
}

/// Adds music to every slot of the track. `sample` gives the frame of the music that is heard
/// at a slot, if there is one.
pub fn mix_music<T: Copy, S, L, D, A>(
    output: &mut Vec<T>,
    sample: &S,
    silence: T,
    gain: T,
    arithmetic: &Arithmetic<L, D, A>,
) where
    S: Fn(usize) -> Option<(T, T)>,
    L: Fn(Single) -> T,
    D: Fn(T, T) -> T,
    A: Fn(T, T, T) -> T,

    requires
        total(*arithmetic),
        forall|i: usize| call_requires(*sample, (i,)),
    ensures
        music_added(*arithmetic, *sample, silence, gain, old(output)@, final(output)@),
        final(output)@.len() == old(output)@.len(),
        exists|heard: Seq<Option<(T, T)>>|
            {
                &&& #[trigger] heard.len() == old(output)@.len()
                &&& forall|i: int|
                    0 <= i < old(output)@.len() ==> call_ensures(*sample, (i as usize,), #[trigger] heard[i])
                &&& forall|i: int|
                    0 <= i < old(output)@.len() ==> call_ensures(
                        arithmetic.accumulate,
                        (
                            old(output)@[i],
                            match #[trigger] heard[i] {
                                Some(frame) => if i % 2 == 0 {
                                    frame.0
                                } else {
                                    frame.1
                                },
                                None => silence,
                            },
                            gain,
                        ),
                        final(output)@[i],
                    )
            },
{
    let accumulate = &arithmetic.accumulate;
    let len: usize = output.len();
    let mut i: usize = 0;
    while i < len
        invariant
            total(*arithmetic),
            *accumulate == arithmetic.accumulate,
            forall|k: usize| call_requires(*sample, (k,)),
            len == old(output)@.len(),
            output@.len() == len,
            i <= len,
            forall|k: int|
                0 <= k < i ==> music_slot_added(
                    *arithmetic,
                    *sample,
                    silence,
                    gain,
                    k,
                    old(output)@[k],
                    #[trigger] output@[k],
                ),
            forall|k: int| i <= k < len ==> output@[k] == old(output)@[k],
        decreases len - i,
    {
        let sampled = sample(i);
        let value = match sampled {
            Some(frame) => if i % 2 == 0 {
                frame.0
            } else {
                frame.1
            },
            None => silence,
        };
        let mixed = accumulate(output[i], value, gain);
        let ghost slot = i as int;
        assert(call_ensures(*sample, (slot as usize,), sampled));
        output.set(i, mixed);
        assert(music_slot_added(
            *arithmetic,
            *sample,
            silence,
            gain,
            i as int,
            old(output)@[i as int],
            output@[i as int],
        ));
        i = i + 1;
    }
    proof {
        law_music(*arithmetic, *sample, silence, gain, old(output)@, output@);
    }
}

/// The kinds of notes, as far as they sound different.
#[derive(Clone, Copy, PartialEq, Eq, Structural, Debug)]
pub enum NoteKind {
    Click,
    Hold,
    Drag,
    Flick,
}

/// A note of a chart.
#[derive(Clone, Copy, Debug)]
pub struct Note {
    pub kind: NoteKind,
    /// A fake note is drawn, but neither judged nor heard.
    pub fake: bool,
    /// The slot of the track at which the note is hit.
    pub position: usize,
}

/// The sounds of notes.
pub struct EffectKit<T> {
    pub click: Vec<(T, T)>,
    pub drag: Vec<(T, T)>,
    pub flick: Vec<(T, T)>,
}

impl<T> EffectKit<T> {
    /// The sound of a kind of notes: a hold sounds like a click.
    pub open spec fn sound(self, kind: NoteKind) -> Vec<(T, T)> {
        match kind {
            NoteKind::Click | NoteKind::Hold => self.click,
            NoteKind::Drag => self.drag,
            NoteKind::Flick => self.flick,
        }
    }

    /// Picks the sound of a kind of notes.
    pub fn effect(&self, kind: NoteKind) -> (clip: &Vec<(T, T)>)
        ensures
            *clip == self.sound(kind),
            kind is Click || kind is Hold ==> *clip == self.click,
            kind is Drag ==> *clip == self.drag,
            kind is Flick ==> *clip == self.flick,
    {
        match kind {
            NoteKind::Click | NoteKind::Hold => &self.click,
            NoteKind::Drag => &self.drag,
            NoteKind::Flick => &self.flick,
        }
    }
}

/// The sound of a note was added to a track; that of a fake note was not.
pub open spec fn note_added<T, L, D, A>(
    arithmetic: Arithmetic<L, D, A>,
    gain: T,
    stereo: bool,
    kit: EffectKit<T>,
    note: Note,
    before: Seq<T>,
    after: Seq<T>,
) -> bool where L: Fn(Single) -> T, D: Fn(T, T) -> T, A: Fn(T, T, T) -> T {
    if note.fake {
        after == before
    } else {
        clip_added(
            arithmetic,
            gain,
            stereo,
            kit.sound(note.kind)@,
            note.position as int,
            before,
            after,
        )
    }
}

/// The sounds of the notes of one line were added to a track, one after the other.
pub open spec fn notes_added<T, L, D, A>(
    arithmetic: Arithmetic<L, D, A>,
    gain: T,
    stereo: bool,
    kit: EffectKit<T>,
    notes: Seq<Note>,
    before: Seq<T>,
    after: Seq<T>,
) -> bool where L: Fn(Single) -> T, D: Fn(T, T) -> T, A: Fn(T, T, T) -> T
    decreases notes.len(),
{
    if notes.len() == 0 {
        after == before
    } else {
        exists|middle: Seq<T>|
            {
                &&& notes_added(
                    arithmetic,
                    gain,
                    stereo,
                    kit,
                    notes.drop_last(),
                    before,
                    middle,
                )
                &&& #[trigger] note_added(
                    arithmetic,
                    gain,
                    stereo,
                    kit,
                    notes.last(),
                    middle,
                    after,
                )
            }
    }
}

/// The sounds of the notes of all lines were added to a track, line after line.
pub open spec fn lines_added<T, L, D, A>(
    arithmetic: Arithmetic<L, D, A>,
    gain: T,
    stereo: bool,
    kit: EffectKit<T>,
    lines: Seq<Vec<Note>>,
    before: Seq<T>,
    after: Seq<T>,
) -> bool where L: Fn(Single) -> T, D: Fn(T, T) -> T, A: Fn(T, T, T) -> T
    decreases lines.len(),
{
    if lines.len() == 0 {
        after == before
    } else {
        exists|middle: Seq<T>|
            {
                &&& lines_added(
                    arithmetic,
                    gain,
                    stereo,
                    kit,
                    lines.drop_last(),
                    before,
                    middle,
                )
                &&& #[trigger] notes_added(
                    arithmetic,
                    gain,
                    stereo,
                    kit,
                    lines.last()@,
                    middle,
                    after,
                )
            }
    }
}

/// Adds the sounds of the notes of one line.
fn mix_notes<T: Copy, L, D, A>(
    output: &mut Vec<T>,
    notes: &Vec<Note>,
    kit: &EffectKit<T>,
    gain: T,
    stereo: bool,
    arithmetic: &Arithmetic<L, D, A>,
) where L: Fn(Single) -> T, D: Fn(T, T) -> T, A: Fn(T, T, T) -> T
    requires
        total(*arithmetic),
    ensures
        notes_added(*arithmetic, gain, stereo, *kit, notes@, old(output)@, final(output)@),
{
    let len: usize = notes.len();
    let mut i: usize = 0;
    while i < len
        invariant
            total(*arithmetic),
            len == notes@.len(),
            i <= len,
            notes_added(
                *arithmetic,
                gain,
                stereo,
                *kit,
                notes@.take(i as int),
                old(output)@,
                output@,
            ),
        decreases len - i,
    {
        let note = notes[i];
        let ghost middle = output@;
        if !note.fake {
            place(output, note.position, kit.effect(note.kind), gain, stereo, arithmetic);
        }
        proof {
            let done = notes@.take(i + 1);
            assert(done.drop_last() == notes@.take(i as int));
            assert(done.last() == note);
            assert(note_added(*arithmetic, gain, stereo, *kit, done.last(), middle, output@));
        }
        i = i + 1;
    }
    assert(notes@.take(len as int) == notes@);
}

/// Adds the sound of every note of the chart that is not fake.
pub fn mix_effects<T: Copy, L, D, A>(
    output: &mut Vec<T>,
    lines: &Vec<Vec<Note>>,
    kit: &EffectKit<T>,
    gain: T,
    stereo: bool,
    arithmetic: &Arithmetic<L, D, A>,
) where L: Fn(Single) -> T, D: Fn(T, T) -> T, A: Fn(T, T, T) -> T
    requires
        total(*arithmetic),
    ensures
        lines_added(*arithmetic, gain, stereo, *kit, lines@, old(output)@, final(output)@),
        final(output)@.len() == old(output)@.len(),
{
    let len: usize = lines.len();
    let mut i: usize = 0;
    while i < len
        invariant
            total(*arithmetic),
            len == lines@.len(),
            i <= len,
            lines_added(
                *arithmetic,
                gain,
                stereo,
                *kit,
                lines@.take(i as int),
                old(output)@,
                output@,
            ),
        decreases len - i,
    {
        let ghost middle = output@;
        mix_notes(output, &lines[i], kit, gain, stereo, arithmetic);
        proof {
            let done = lines@.take(i + 1);
            assert(done.drop_last() == lines@.take(i as int));
            assert(done.last() == lines@[i as int]);
            assert(notes_added(
                *arithmetic,
                gain,
                stereo,
                *kit,
                done.last()@,
                middle,
                output@,
            ));
        }
        i = i + 1;
    }
    assert(lines@.take(len as int) == lines@);
    proof {
        law_lines_keep_length(*arithmetic, gain, stereo, *kit, lines@, old(output)@, output@);
    }
}

/// The ending jingle was added at the given positions in turn, up to the first at which no
/// frame of it fits; only at the first position unless it is to be repeated.
pub open spec fn ending_added<T, L, D, A>(
    arithmetic: Arithmetic<L, D, A>,
    gain: T,
    stereo: bool,
    jingle: Seq<(T, T)>,
    positions: Seq<usize>,
    repeat: bool,
    before: Seq<T>,
    after: Seq<T>,
) -> bool where L: Fn(Single) -> T, D: Fn(T, T) -> T, A: Fn(T, T, T) -> T
    decreases positions.len(),
{
    if positions.len() == 0 {
        after == before
    } else {
        exists|middle: Seq<T>|
            {
                &&& #[trigger] clip_added(
                    arithmetic,
                    gain,
                    stereo,
                    jingle,
                    positions[0] as int,
                    before,
                    middle,
                )
                &&& if repeat && frames_that_fit(
                    before.len() as int,
                    positions[0] as int,
                    jingle.len() as int,
                ) != 0 {
                    ending_added(
                        arithmetic,
                        gain,
                        stereo,
                        jingle,
                        positions.drop_first(),
                        repeat,
                        middle,
                        after,
                    )
                } else {
                    after == middle
                }
            }
    }
}

/// Adds the ending jingle at the given positions in turn, until no frame of it fits any more;
/// only at the first position unless it is to be repeated.
pub fn mix_ending<T: Copy, L, D, A>(
    output: &mut Vec<T>,
    jingle: &Vec<(T, T)>,
    positions: &Vec<usize>,
    repeat: bool,
    gain: T,
    stereo: bool,
    arithmetic: &Arithmetic<L, D, A>,
) where L: Fn(Single) -> T, D: Fn(T, T) -> T, A: Fn(T, T, T) -> T
    requires
        total(*arithmetic),
    ensures
        ending_added(
            *arithmetic,
            gain,
            stereo,
            jingle@,
            positions@,
            repeat,
            old(output)@,
            final(output)@,
        ),
{
    let len: usize = positions.len();
    let mut next: usize = 0;
    assert(positions@.skip(0) == positions@);
    while next < len
        invariant
            total(*arithmetic),
            len == positions@.len(),
            next <= len,
            forall|after: Seq<T>| #[trigger]
                ending_added(
                    *arithmetic,
                    gain,
                    stereo,
                    jingle@,
                    positions@.skip(next as int),
                    repeat,
                    output@,
                    after,
                ) ==> ending_added(
                    *arithmetic,
                    gain,
                    stereo,
                    jingle@,
                    positions@,
                    repeat,
                    old(output)@,
                    after,
                ),
        decreases len - next,
    {
        let ghost rest = positions@.skip(next as int);
        let ghost before = output@;
        assert(rest[0] == positions@[next as int]);
        let count: usize = place(output, positions[next], jingle, gain, stereo, arithmetic);
        assert(clip_added(*arithmetic, gain, stereo, jingle@, rest[0] as int, before, output@));
        if count == 0 || !repeat {
            assert(ending_added(
                *arithmetic,
                gain,
                stereo,
                jingle@,
                rest,
                repeat,
                before,
                output@,
            ));
            return;
        }
        proof {
            assert(rest.drop_first() == positions@.skip(next + 1));
            assert forall|after: Seq<T>| #[trigger]
                ending_added(
                    *arithmetic,
                    gain,
                    stereo,
                    jingle@,
                    positions@.skip(next + 1),
                    repeat,
                    output@,
                    after,
                ) implies ending_added(
                *arithmetic,
                gain,
                stereo,
                jingle@,
                positions@,
                repeat,
                old(output)@,
                after,
            ) by {
                assert(ending_added(
                    *arithmetic,
                    gain,
                    stereo,
                    jingle@,
                    rest,
                    repeat,
                    before,
                    after,
                ));
            }
        }
        next = next + 1;
    }
    assert(ending_added(
        *arithmetic,
        gain,
        stereo,
        jingle@,
        positions@.skip(next as int),
        repeat,
        output@,
        output@,
    ));
}

/// Frames per second of the mixed track and of every sound but the music.
pub const SAMPLE_RATE: u32 = 96000;

/// The double-precision number nearest to 0.1.
pub const TENTH_BITS: u64 = 0x3fb9_9999_9999_999a;

/// Tells whether all four fixed sounds have the rate of the track.
pub fn rates_match(ending: u32, click: u32, drag: u32, flick: u32) -> (r: bool)
    ensures
        r == (ending == SAMPLE_RATE && click == SAMPLE_RATE && drag == SAMPLE_RATE && flick
            == SAMPLE_RATE),
{
    ending == SAMPLE_RATE && click == SAMPLE_RATE && drag == SAMPLE_RATE && flick == SAMPLE_RATE
}

/// The ending jingle is repeated where the ending screen lasts longer than a tenth of a second.
pub open spec fn jingle_repeats(ending_length: Double) -> bool {
    ending_length.above(Double { bits: TENTH_BITS })
}

/// Everything that goes into a track but the music itself.
pub struct Score<T> {
    /// Length of the track in frames.
    pub frames: usize,
    /// The sample of silence.
    pub silence: T,
    pub volume_music: Single,
    pub volume_sfx: Single,
    /// Whether a clip keeps its two channels; else both get its mono sound.
    pub stereo: bool,
    pub kit: EffectKit<T>,
    /// The notes of each line of the chart.
    pub lines: Vec<Vec<Note>>,
    pub jingle: Vec<(T, T)>,
    /// The slots at which the jingle starts, first and after each repetition, up to one at which
    /// nothing of it fits.
    pub jingle_positions: Vec<usize>,
    /// Seconds that the ending screen is shown.
    pub ending_length: Double,
}

/// The list of start slots says where the jingle goes to its end: there is a first one, and where
/// the jingle is repeated no frame of it fits at the last one.
pub open spec fn jingle_covered<T>(score: Score<T>) -> bool {
    &&& score.jingle_positions@.len() > 0
    &&& jingle_repeats(score.ending_length) ==> frames_that_fit(
        2 * score.frames,
        score.jingle_positions@.last() as int,
        score.jingle@.len() as int,
    ) == 0
}

/// A track without any sound.
pub open spec fn silent_track<T>(score: Score<T>) -> Seq<T> {
    Seq::new((2 * score.frames) as nat, |i: int| score.silence)
}

/// The music was added, unless its volume is zero.
pub open spec fn music_stage<T, S, L, D, A>(
    arithmetic: Arithmetic<L, D, A>,
    sample: S,
    score: Score<T>,
    gain: T,
    after: Seq<T>,
) -> bool where
    S: Fn(usize) -> Option<(T, T)>,
    L: Fn(Single) -> T,
    D: Fn(T, T) -> T,
    A: Fn(T, T, T) -> T,
 {
    if score.volume_music.nonzero() {
        music_added(arithmetic, sample, score.silence, gain, silent_track(score), after)
    } else {
        after == silent_track(score)
    }
}

/// The sounds of the notes were added, unless their volume is zero.
pub open spec fn effects_stage<T, L, D, A>(
    arithmetic: Arithmetic<L, D, A>,
    score: Score<T>,
    before: Seq<T>,
    after: Seq<T>,
) -> bool where L: Fn(Single) -> T, D: Fn(T, T) -> T, A: Fn(T, T, T) -> T {
    if score.volume_sfx.nonzero() {
        exists|gain: T|
            {
                &&& #[trigger] call_ensures(arithmetic.level, (score.volume_sfx,), gain)
                &&& lines_added(
                    arithmetic,
                    gain,
                    score.stereo,
                    score.kit,
                    score.lines@,
                    before,
                    after,
                )
            }
    } else {
        after == before
    }
}

/// `track` is a mix of the score: music, then note sounds, then the ending jingle, which plays
/// at the volume of the music whatever that is.
pub open spec fn mixed<T, S, L, D, A>(
    arithmetic: Arithmetic<L, D, A>,
    sample: S,
    score: Score<T>,
    track: Seq<T>,
) -> bool where
    S: Fn(usize) -> Option<(T, T)>,
    L: Fn(Single) -> T,
    D: Fn(T, T) -> T,
    A: Fn(T, T, T) -> T,
 {
    exists|gain: T, bed: Seq<T>, scored: Seq<T>|
        {
            &&& call_ensures(arithmetic.level, (score.volume_music,), gain)
            &&& #[trigger] music_stage(arithmetic, sample, score, gain, bed)
            &&& #[trigger] effects_stage(arithmetic, score, bed, scored)
            &&& ending_added(
                arithmetic,
                gain,
                score.stereo,
                score.jingle@,
                score.jingle_positions@,
                jingle_repeats(score.ending_length),
                scored,
                track,
            )
        }
}

/// Mixes the whole track. `sample` gives the frame of the music that is heard at a slot, if
/// there is one.
pub fn mixdown<T: Copy, S, L, D, A>(
    score: &Score<T>,
    sample: &S,
    arithmetic: &Arithmetic<L, D, A>,
) -> (track: Vec<T>) where
    S: Fn(usize) -> Option<(T, T)>,
    L: Fn(Single) -> T,
    D: Fn(T, T) -> T,
    A: Fn(T, T, T) -> T,

    requires
        2 * score.frames <= usize::MAX,
        jingle_covered(*score),
        total(*arithmetic),
        forall|i: usize| call_requires(*sample, (i,)),
    ensures
        track@.len() == 2 * score.frames,
        mixed(*arithmetic, *sample, *score, track@),
        exists|gain: T, sfx_gain: T, silent: Seq<T>, bed: Seq<T>, scored: Seq<T>|
            {
                &&& call_ensures(arithmetic.level, (score.volume_music,), gain)
                &&& silent.len() == 2 * score.frames
                &&& forall|i: int| 0 <= i < silent.len() ==> silent[i] == score.silence
                &&& score.volume_music.bits != 0 && score.volume_music.bits != 0x8000_0000
                    ==> #[trigger] music_added(
                    *arithmetic,
                    *sample,
                    score.silence,
                    gain,
                    silent,
                    bed,
                )
                &&& score.volume_music.bits == 0 || score.volume_music.bits == 0x8000_0000 ==> bed
                    == silent
                &&& score.volume_sfx.bits != 0 && score.volume_sfx.bits != 0x8000_0000
                    ==> call_ensures(arithmetic.level, (score.volume_sfx,), sfx_gain)
                &&& score.volume_sfx.bits != 0 && score.volume_sfx.bits != 0x8000_0000
                    ==> #[trigger] lines_added(
                    *arithmetic,
                    sfx_gain,
                    score.stereo,
                    score.kit,
                    score.lines@,
                    bed,
                    scored,
                )
                &&& score.volume_sfx.bits == 0 || score.volume_sfx.bits == 0x8000_0000 ==> scored
                    == bed
                &&& ending_added(
                    *arithmetic,
                    gain,
                    score.stereo,
                    score.jingle@,
                    score.jingle_positions@,
                    0x3fb9_9999_9999_999a < score.ending_length.bits <= 0x7ff0_0000_0000_0000,
                    scored,
                    track@,
                )
            },
{
    let level = &arithmetic.level;
    let len: usize = score.frames * 2;
    let mut track: Vec<T> = Vec::new();
    while track.len() < len
        invariant
            track@.len() <= len,
            forall|i: int| 0 <= i < track@.len() ==> track@[i] == score.silence,
        decreases len - track@.len(),
    {
        track.push(score.silence);
    }
    assert(track@ == silent_track(*score));
    let gain = level(score.volume_music);
    if score.volume_music.is_nonzero() {
        mix_music(&mut track, sample, score.silence, gain, arithmetic);
    }
    let ghost bed = track@;
    assert(music_stage(*arithmetic, *sample, *score, gain, bed));
    let ghost mut sfx = gain;
    if score.volume_sfx.is_nonzero() {
        let sfx_gain = level(score.volume_sfx);
        proof {
            sfx = sfx_gain;
        }
        mix_effects(&mut track, &score.lines, &score.kit, sfx_gain, score.stereo, arithmetic);
        proof {
            law_lines_keep_length(
                *arithmetic,
                sfx_gain,
                score.stereo,
                score.kit,
                score.lines@,
                bed,
                track@,
            );
        }
    }
    let ghost scored = track@;
    assert(effects_stage(*arithmetic, *score, bed, scored));
    let repeat = score.ending_length.is_above(Double { bits: TENTH_BITS });
    mix_ending(
        &mut track,
        &score.jingle,
        &score.jingle_positions,
        repeat,
        gain,
        score.stereo,
        arithmetic,
    );
    proof {
        law_ending_keeps_length(
            *arithmetic,
            gain,
            score.stereo,
            score.jingle@,
            score.jingle_positions@,
            repeat,
            scored,
            track@,
        );
        law_jingle_repeats(score.ending_length);
        let silent = silent_track(*score);
        if score.volume_music.bits != 0 && score.volume_music.bits != 0x8000_0000 {
            assert(music_added(*arithmetic, *sample, score.silence, gain, silent, bed));
        } else {
            assert(bed == silent);
        }
        if score.volume_sfx.bits != 0 && score.volume_sfx.bits != 0x8000_0000 {
            assert(lines_added(
                *arithmetic,
                sfx,
                score.stereo,
                score.kit,
                score.lines@,
                bed,
                scored,
            ));
        } else {
            assert(scored == bed);
        }
        let heard = music_added(*arithmetic, *sample, score.silence, gain, silent, bed);
        let played = lines_added(
            *arithmetic,
            sfx,
            score.stereo,
            score.kit,
            score.lines@,
            bed,
            scored,
        );
    }
    track
}

/// A clip that starts past the end of a track changes nothing.
pub proof fn law_clip_past_the_end<T, L, D, A>(
    arithmetic: Arithmetic<L, D, A>,
    gain: T,
    stereo: bool,
    clip: Seq<(T, T)>,
    position: int,
    before: Seq<T>,
    after: Seq<T>,
) where L: Fn(Single) -> T, D: Fn(T, T) -> T, A: Fn(T, T, T) -> T
    requires
        clip_added(arithmetic, gain, stereo, clip, position, before, after),
        position >= before.len(),
    ensures
        after == before,
{
}

/// The frames that fit stay inside the track and inside the clip, and no further frame would.
pub proof fn law_frames_that_fit(track: int, position: int, clip: int)
    requires
        0 <= track,
        0 <= position,
        0 <= clip,
    ensures
        0 <= frames_that_fit(track, position, clip) <= clip,
        frames_that_fit(track, position, clip) > 0 ==> position + 2 * frames_that_fit(
            track,
            position,
            clip,
        ) <= track,
        frames_that_fit(track, position, clip) < clip ==> position + 2 * frames_that_fit(
            track,
            position,
            clip,
        ) + 2 > track,
{
}

/// The track before the last note was added.
proof fn lemma_last_note<T, L, D, A>(
    arithmetic: Arithmetic<L, D, A>,
    gain: T,
    stereo: bool,
    kit: EffectKit<T>,
    notes: Seq<Note>,
    before: Seq<T>,
    after: Seq<T>,
) -> (middle: Seq<T>) where L: Fn(Single) -> T, D: Fn(T, T) -> T, A: Fn(T, T, T) -> T
    requires
        notes_added(arithmetic, gain, stereo, kit, notes, before, after),
        notes.len() > 0,
    ensures
        notes_added(arithmetic, gain, stereo, kit, notes.drop_last(), before, middle),
        note_added(arithmetic, gain, stereo, kit, notes.last(), middle, after),
{
    let middle = choose|middle: Seq<T>|
        {
            &&& notes_added(
                arithmetic,
                gain,
                stereo,
                kit,
                notes.drop_last(),
                before,
                middle,
            )
            &&& #[trigger] note_added(
                arithmetic,
                gain,
                stereo,
                kit,
                notes.last(),
                middle,
                after,
            )
        };
    middle
}

/// The track before the last line was added.
proof fn lemma_last_line<T, L, D, A>(
    arithmetic: Arithmetic<L, D, A>,
    gain: T,
    stereo: bool,
    kit: EffectKit<T>,
    lines: Seq<Vec<Note>>,
    before: Seq<T>,
    after: Seq<T>,
) -> (middle: Seq<T>) where L: Fn(Single) -> T, D: Fn(T, T) -> T, A: Fn(T, T, T) -> T
    requires
        lines_added(arithmetic, gain, stereo, kit, lines, before, after),
        lines.len() > 0,
    ensures
        lines_added(arithmetic, gain, stereo, kit, lines.drop_last(), before, middle),
        notes_added(arithmetic, gain, stereo, kit, lines.last()@, middle, after),
{
    let middle = choose|middle: Seq<T>|
        {
            &&& lines_added(
                arithmetic,
                gain,
                stereo,
                kit,
                lines.drop_last(),
                before,
                middle,
            )
            &&& #[trigger] notes_added(
                arithmetic,
                gain,
                stereo,
                kit,
                lines.last()@,
                middle,
                after,
            )
        };
    middle
}

/// The track after the jingle was added at its first position.
proof fn lemma_first_jingle<T, L, D, A>(
    arithmetic: Arithmetic<L, D, A>,
    gain: T,
    stereo: bool,
    jingle: Seq<(T, T)>,
    positions: Seq<usize>,
    repeat: bool,
    before: Seq<T>,
    after: Seq<T>,
) -> (middle: Seq<T>) where L: Fn(Single) -> T, D: Fn(T, T) -> T, A: Fn(T, T, T) -> T
    requires
        ending_added(arithmetic, gain, stereo, jingle, positions, repeat, before, after),
        positions.len() > 0,
    ensures
        clip_added(arithmetic, gain, stereo, jingle, positions[0] as int, before, middle),
        if repeat && frames_that_fit(
            before.len() as int,
            positions[0] as int,
            jingle.len() as int,
        ) != 0 {
            ending_added(
                arithmetic,
                gain,
                stereo,
                jingle,
                positions.drop_first(),
                repeat,
                middle,
                after,
            )
        } else {
            after == middle
        },
{
    let again = repeat && frames_that_fit(
        before.len() as int,
        positions[0] as int,
        jingle.len() as int,
    ) != 0;
    choose|middle: Seq<T>|
        {
            &&& #[trigger] clip_added(
                arithmetic,
                gain,
                stereo,
                jingle,
                positions[0] as int,
                before,
                middle,
            )
            &&& if again {
                ending_added(
                    arithmetic,
                    gain,
                    stereo,
                    jingle,
                    positions.drop_first(),
                    repeat,
                    middle,
                    after,
                )
            } else {
                after == middle
            }
        }
}

/// Adding the sounds of notes keeps the length of a track.
proof fn lemma_notes_keep_length<T, L, D, A>(
    arithmetic: Arithmetic<L, D, A>,
    gain: T,
    stereo: bool,
    kit: EffectKit<T>,
    notes: Seq<Note>,
    before: Seq<T>,
    after: Seq<T>,
) where L: Fn(Single) -> T, D: Fn(T, T) -> T, A: Fn(T, T, T) -> T
    requires
        notes_added(arithmetic, gain, stereo, kit, notes, before, after),
    ensures
        after.len() == before.len(),
    decreases notes.len(),
{
    if notes.len() > 0 {
        let middle = lemma_last_note(arithmetic, gain, stereo, kit, notes, before, after);
        lemma_notes_keep_length(
            arithmetic,
            gain,
            stereo,
            kit,
            notes.drop_last(),
            before,
            middle,
        );
    }
}

/// Adding the sounds of all lines keeps the length of a track.
pub proof fn law_lines_keep_length<T, L, D, A>(
    arithmetic: Arithmetic<L, D, A>,
    gain: T,
    stereo: bool,
    kit: EffectKit<T>,
    lines: Seq<Vec<Note>>,
    before: Seq<T>,
    after: Seq<T>,
) where L: Fn(Single) -> T, D: Fn(T, T) -> T, A: Fn(T, T, T) -> T
    requires
        lines_added(arithmetic, gain, stereo, kit, lines, before, after),
    ensures
        after.len() == before.len(),
    decreases lines.len(),
{
    if lines.len() > 0 {
        let middle = lemma_last_line(arithmetic, gain, stereo, kit, lines, before, after);
        law_lines_keep_length(arithmetic, gain, stereo, kit, lines.drop_last(), before, middle);
        lemma_notes_keep_length(arithmetic, gain, stereo, kit, lines.last()@, middle, after);
    }
}

/// Adding the ending jingle keeps the length of a track.
pub proof fn law_ending_keeps_length<T, L, D, A>(
    arithmetic: Arithmetic<L, D, A>,
    gain: T,
    stereo: bool,
    jingle: Seq<(T, T)>,
    positions: Seq<usize>,
    repeat: bool,
    before: Seq<T>,
    after: Seq<T>,
) where L: Fn(Single) -> T, D: Fn(T, T) -> T, A: Fn(T, T, T) -> T
    requires
        ending_added(arithmetic, gain, stereo, jingle, positions, repeat, before, after),
    ensures
        after.len() == before.len(),
    decreases positions.len(),
{
    if positions.len() > 0 {
        let middle = lemma_first_jingle(
            arithmetic,
            gain,
            stereo,
            jingle,
            positions,
            repeat,
            before,
            after,
        );
        if repeat && frames_that_fit(
            before.len() as int,
            positions[0] as int,
            jingle.len() as int,
        ) != 0 {
            law_ending_keeps_length(
                arithmetic,
                gain,
                stereo,
                jingle,
                positions.drop_first(),
                repeat,
                middle,
                after,
            );
        }
    }
}

/// One direction of the law below.
proof fn lemma_positions_agree<T, L, D, A>(
    arithmetic: Arithmetic<L, D, A>,
    gain: T,
    stereo: bool,
    jingle: Seq<(T, T)>,
    positions: Seq<usize>,
    others: Seq<usize>,
    k: int,
    repeat: bool,
    before: Seq<T>,
    after: Seq<T>,
) where L: Fn(Single) -> T, D: Fn(T, T) -> T, A: Fn(T, T, T) -> T
    requires
        ending_added(arithmetic, gain, stereo, jingle, positions, repeat, before, after),
        0 <= k < positions.len(),
        k < others.len(),
        forall|i: int| 0 <= i <= k ==> positions[i] == others[i],
        repeat ==> frames_that_fit(
            before.len() as int,
            positions[k] as int,
            jingle.len() as int,
        ) == 0,
    ensures
        ending_added(arithmetic, gain, stereo, jingle, others, repeat, before, after),
    decreases k,
{
    let middle = lemma_first_jingle(
        arithmetic,
        gain,
        stereo,
        jingle,
        positions,
        repeat,
        before,
        after,
    );
    assert(positions[0] == others[0]);
    if repeat && frames_that_fit(
        before.len() as int,
        positions[0] as int,
        jingle.len() as int,
    ) != 0 {
        let rest = positions.drop_first();
        let other_rest = others.drop_first();
        assert forall|i: int| 0 <= i <= k - 1 implies rest[i] == other_rest[i] by {
            assert(positions[i + 1] == others[i + 1]);
        }
        lemma_positions_agree(
            arithmetic,
            gain,
            stereo,
            jingle,
            rest,
            other_rest,
            k - 1,
            repeat,
            middle,
            after,
        );
    }
    assert(clip_added(arithmetic, gain, stereo, jingle, others[0] as int, before, middle));
}

/// The positions after one at which no frame of the jingle fits have no influence, nor has any
/// but the first where the jingle is not repeated: two lists that agree up to there give the
/// same tracks.
pub proof fn law_later_positions_do_not_matter<T, L, D, A>(
    arithmetic: Arithmetic<L, D, A>,
    gain: T,
    stereo: bool,
    jingle: Seq<(T, T)>,
    positions: Seq<usize>,
    others: Seq<usize>,
    k: int,
    repeat: bool,
    before: Seq<T>,
    after: Seq<T>,
) where L: Fn(Single) -> T, D: Fn(T, T) -> T, A: Fn(T, T, T) -> T
    requires
        0 <= k < positions.len(),
        k < others.len(),
        forall|i: int| 0 <= i <= k ==> positions[i] == others[i],
        repeat ==> frames_that_fit(
            before.len() as int,
            positions[k] as int,
            jingle.len() as int,
        ) == 0,
    ensures
        ending_added(arithmetic, gain, stereo, jingle, positions, repeat, before, after)
            <==> ending_added(arithmetic, gain, stereo, jingle, others, repeat, before, after),
{
    if ending_added(arithmetic, gain, stereo, jingle, positions, repeat, before, after) {
        lemma_positions_agree(
            arithmetic,
            gain,
            stereo,
            jingle,
            positions,
            others,
            k,
            repeat,
            before,
            after,
        );
    }
    if ending_added(arithmetic, gain, stereo, jingle, others, repeat, before, after) {
        lemma_positions_agree(
            arithmetic,
            gain,
            stereo,
            jingle,
            others,
            positions,
            k,
            repeat,
            before,
            after,
        );
    }
}

/// Fake notes are not heard: a line that holds no others changes nothing.
pub proof fn law_fake_notes_are_silent<T, L, D, A>(
    arithmetic: Arithmetic<L, D, A>,
    gain: T,
    stereo: bool,
    kit: EffectKit<T>,
    notes: Seq<Note>,
    before: Seq<T>,
    after: Seq<T>,
) where L: Fn(Single) -> T, D: Fn(T, T) -> T, A: Fn(T, T, T) -> T
    requires
        notes_added(arithmetic, gain, stereo, kit, notes, before, after),
        forall|i: int| 0 <= i < notes.len() ==> (#[trigger] notes[i]).fake,
    ensures
        after == before,
    decreases notes.len(),
{
    if notes.len() > 0 {
        let middle = lemma_last_note(arithmetic, gain, stereo, kit, notes, before, after);
        law_fake_notes_are_silent(
            arithmetic,
            gain,
            stereo,
            kit,
            notes.drop_last(),
            before,
            middle,
        );
    }
}

/// The sound of a note reaches a slot of a track.
pub open spec fn reaches<T>(kit: EffectKit<T>, note: Note, track: int, slot: int) -> bool {
    !note.fake && note.position <= slot < note.position + 2 * frames_that_fit(
        track,
        note.position as int,
        kit.sound(note.kind)@.len() as int,
    )
}

proof fn lemma_unreached_by_notes<T, L, D, A>(
    arithmetic: Arithmetic<L, D, A>,
    gain: T,
    stereo: bool,
    kit: EffectKit<T>,
    notes: Seq<Note>,
    before: Seq<T>,
    after: Seq<T>,
    slot: int,
) where L: Fn(Single) -> T, D: Fn(T, T) -> T, A: Fn(T, T, T) -> T
    requires
        notes_added(arithmetic, gain, stereo, kit, notes, before, after),
        0 <= slot < before.len(),
        forall|i: int|
            0 <= i < notes.len() ==> !reaches(kit, #[trigger] notes[i], before.len() as int, slot),
    ensures
        after[slot] == before[slot],
    decreases notes.len(),
{
    if notes.len() > 0 {
        let middle = lemma_last_note(arithmetic, gain, stereo, kit, notes, before, after);
        lemma_notes_keep_length(
            arithmetic,
            gain,
            stereo,
            kit,
            notes.drop_last(),
            before,
            middle,
        );
        assert forall|i: int| 0 <= i < notes.drop_last().len() implies !reaches(
            kit,
            #[trigger] notes.drop_last()[i],
            before.len() as int,
            slot,
        ) by {
            assert(notes.drop_last()[i] == notes[i]);
        }
        lemma_unreached_by_notes(
            arithmetic,
            gain,
            stereo,
            kit,
            notes.drop_last(),
            before,
            middle,
            slot,
        );
        assert(!reaches(kit, notes.last(), before.len() as int, slot));
    }
}

/// Notes change nothing where they are not heard: a slot that the sound of no note reaches
/// keeps its value.
pub proof fn law_unreached_slot_is_kept<T, L, D, A>(
    arithmetic: Arithmetic<L, D, A>,
    gain: T,
    stereo: bool,
    kit: EffectKit<T>,
    lines: Seq<Vec<Note>>,
    before: Seq<T>,
    after: Seq<T>,
    slot: int,
) where L: Fn(Single) -> T, D: Fn(T, T) -> T, A: Fn(T, T, T) -> T
    requires
        lines_added(arithmetic, gain, stereo, kit, lines, before, after),
        0 <= slot < before.len(),
        forall|k: int, i: int|
            0 <= k < lines.len() && 0 <= i < lines[k]@.len() ==> !reaches(
                kit,
                #[trigger] lines[k]@[i],
                before.len() as int,
                slot,
            ),
    ensures
        after[slot] == before[slot],
    decreases lines.len(),
{
    if lines.len() > 0 {
        let middle = lemma_last_line(arithmetic, gain, stereo, kit, lines, before, after);
        law_lines_keep_length(arithmetic, gain, stereo, kit, lines.drop_last(), before, middle);
        law_unreached_slot_is_kept(
            arithmetic,
            gain,
            stereo,
            kit,
            lines.drop_last(),
            before,
            middle,
            slot,
        );
        lemma_unreached_by_notes(
            arithmetic,
            gain,
            stereo,
            kit,
            lines.last()@,
            middle,
            after,
            slot,
        );
    }
}

/// The gains of the music and of the notes, and the tracks before and after the notes.
proof fn lemma_stages<T, S, L, D, A>(
    arithmetic: Arithmetic<L, D, A>,
    sample: S,
    score: Score<T>,
    track: Seq<T>,
) -> (stages: (T, T, Seq<T>, Seq<T>)) where
    S: Fn(usize) -> Option<(T, T)>,
    L: Fn(Single) -> T,
    D: Fn(T, T) -> T,
    A: Fn(T, T, T) -> T,

    requires
        mixed(arithmetic, sample, score, track),
    ensures
        call_ensures(arithmetic.level, (score.volume_music,), stages.0),
        music_stage(arithmetic, sample, score, stages.0, stages.2),
        score.volume_sfx.nonzero() ==> call_ensures(
            arithmetic.level,
            (score.volume_sfx,),
            stages.1,
        ),
        score.volume_sfx.nonzero() ==> lines_added(
            arithmetic,
            stages.1,
            score.stereo,
            score.kit,
            score.lines@,
            stages.2,
            stages.3,
        ),
        !score.volume_sfx.nonzero() ==> stages.3 == stages.2,
        ending_added(
            arithmetic,
            stages.0,
            score.stereo,
            score.jingle@,
            score.jingle_positions@,
            jingle_repeats(score.ending_length),
            stages.3,
            track,
        ),
{
    let (gain, bed, scored) = choose|gain: T, bed: Seq<T>, scored: Seq<T>|
        {
            &&& call_ensures(arithmetic.level, (score.volume_music,), gain)
            &&& #[trigger] music_stage(arithmetic, sample, score, gain, bed)
            &&& #[trigger] effects_stage(arithmetic, score, bed, scored)
            &&& ending_added(
                arithmetic,
                gain,
                score.stereo,
                score.jingle@,
                score.jingle_positions@,
                jingle_repeats(score.ending_length),
                scored,
                track,
            )
        };
    let sfx_gain = choose|sfx_gain: T|
        {
            &&& #[trigger] call_ensures(arithmetic.level, (score.volume_sfx,), sfx_gain)
            &&& lines_added(
                arithmetic,
                sfx_gain,
                score.stereo,
                score.kit,
                score.lines@,
                bed,
                scored,
            )
        };
    (gain, sfx_gain, bed, scored)
}

/// With both volumes at zero and no jingle there is nothing to hear.
pub proof fn law_silent_score<T, S, L, D, A>(
    arithmetic: Arithmetic<L, D, A>,
    sample: S,
    score: Score<T>,
    track: Seq<T>,
) where
    S: Fn(usize) -> Option<(T, T)>,
    L: Fn(Single) -> T,
    D: Fn(T, T) -> T,
    A: Fn(T, T, T) -> T,

    requires
        mixed(arithmetic, sample, score, track),
        !score.volume_music.nonzero(),
        !score.volume_sfx.nonzero(),
        score.jingle@.len() == 0,
    ensures
        track == silent_track(score),
{
    let (gain, _, bed, scored) = lemma_stages(arithmetic, sample, score, track);
    if score.jingle_positions@.len() > 0 {
        let middle = lemma_first_jingle(
            arithmetic,
            gain,
            score.stereo,
            score.jingle@,
            score.jingle_positions@,
            jingle_repeats(score.ending_length),
            scored,
            track,
        );
        assert(middle == scored);
    }
}

/// A clip in stereo is heard frame by frame: frame `i` of the clip itself, its left sample in the
/// slot `2 * i` after the position and its right sample in the slot behind that, as long as both
/// are in the track. Every other slot keeps its value.
pub proof fn law_clip_in_stereo<T, L, D, A>(
    arithmetic: Arithmetic<L, D, A>,
    gain: T,
    clip: Seq<(T, T)>,
    position: int,
    before: Seq<T>,
    after: Seq<T>,
) where L: Fn(Single) -> T, D: Fn(T, T) -> T, A: Fn(T, T, T) -> T
    requires
        clip_added(arithmetic, gain, true, clip, position, before, after),
        0 <= position,
    ensures
        after.len() == before.len(),
        forall|i: int|
            0 <= i < clip.len() && position + 2 * i + 1 < before.len() ==> {
                &&& call_ensures(
                    arithmetic.accumulate,
                    (before[position + 2 * i], (#[trigger] clip[i]).0, gain),
                    after[position + 2 * i],
                )
                &&& call_ensures(
                    arithmetic.accumulate,
                    (before[position + 2 * i + 1], clip[i].1, gain),
                    after[position + 2 * i + 1],
                )
            },
        forall|j: int|
            0 <= j < before.len() && (j < position || j >= position + 2 * clip.len()) ==> (
            #[trigger] after[j]) == before[j],
        position < before.len() && (before.len() - position) % 2 == 1 ==> after.last()
            == before.last(),
{
}

/// A clip in mono is heard frame by frame: one mono sample of frame `i` of the clip itself, in both
/// slots of that frame, as long as both are in the track. Every other slot keeps its value.
pub proof fn law_clip_in_mono<T, L, D, A>(
    arithmetic: Arithmetic<L, D, A>,
    gain: T,
    clip: Seq<(T, T)>,
    position: int,
    before: Seq<T>,
    after: Seq<T>,
) where L: Fn(Single) -> T, D: Fn(T, T) -> T, A: Fn(T, T, T) -> T
    requires
        clip_added(arithmetic, gain, false, clip, position, before, after),
        0 <= position,
    ensures
        after.len() == before.len(),
        exists|monos: Seq<T>|
            {
                &&& #[trigger] monos.len() == clip.len()
                &&& forall|i: int|
                    0 <= i < clip.len() && position + 2 * i + 1 < before.len() ==> {
                        &&& call_ensures(
                            arithmetic.downmix,
                            (clip[i].0, clip[i].1),
                            #[trigger] monos[i],
                        )
                        &&& call_ensures(
                            arithmetic.accumulate,
                            (before[position + 2 * i], monos[i], gain),
                            after[position + 2 * i],
                        )
                        &&& call_ensures(
                            arithmetic.accumulate,
                            (before[position + 2 * i + 1], monos[i], gain),
                            after[position + 2 * i + 1],
                        )
                    }
            },
        forall|j: int|
            0 <= j < before.len() && (j < position || j >= position + 2 * clip.len()) ==> (
            #[trigger] after[j]) == before[j],
        position < before.len() && (before.len() - position) % 2 == 1 ==> after.last()
            == before.last(),
{
    let monos = Seq::new(
        clip.len(),
        |i: int|
            choose|mono: T|
                {
                    &&& #[trigger] call_ensures(arithmetic.downmix, (clip[i].0, clip[i].1), mono)
                    &&& call_ensures(
                        arithmetic.accumulate,
                        (before[position + 2 * i], mono, gain),
                        after[position + 2 * i],
                    )
                    &&& call_ensures(
                        arithmetic.accumulate,
                        (before[position + 2 * i + 1], mono, gain),
                        after[position + 2 * i + 1],
                    )
                },
    );
    assert(monos.len() == clip.len());
    assert forall|i: int| 0 <= i < clip.len() && position + 2 * i + 1 < before.len() implies {
        &&& call_ensures(arithmetic.downmix, (clip[i].0, clip[i].1), #[trigger] monos[i])
        &&& call_ensures(
            arithmetic.accumulate,
            (before[position + 2 * i], monos[i], gain),
            after[position + 2 * i],
        )
        &&& call_ensures(
            arithmetic.accumulate,
            (before[position + 2 * i + 1], monos[i], gain),
            after[position + 2 * i + 1],
        )
    } by {
        assert(frame_added(
            arithmetic,
            gain,
            false,
            clip[i],
            (before[position + 2 * i], before[position + 2 * i + 1]),
            (after[position + 2 * i], after[position + 2 * i + 1]),
        ));
    }
}

/// Where adding a sample to a slot just gives the sample, the slots read back from the position on
/// are the frames of the clip, in order and each once.
pub proof fn law_clip_is_read_back<T, L, D, A>(
    arithmetic: Arithmetic<L, D, A>,
    gain: T,
    clip: Seq<(T, T)>,
    position: int,
    before: Seq<T>,
    after: Seq<T>,
) where L: Fn(Single) -> T, D: Fn(T, T) -> T, A: Fn(T, T, T) -> T
    requires
        clip_added(arithmetic, gain, true, clip, position, before, after),
        0 <= position,
        position + 2 * clip.len() <= before.len(),
        forall|slot: T, value: T, g: T, sum: T|
            call_ensures(arithmetic.accumulate, (slot, value, g), sum) ==> sum == value,
    ensures
        Seq::new(
            clip.len(),
            |i: int| (after[position + 2 * i], after[position + 2 * i + 1]),
        ) == clip,
{
    law_clip_in_stereo(arithmetic, gain, clip, position, before, after);
    let read = Seq::new(
        clip.len(),
        |i: int| (after[position + 2 * i], after[position + 2 * i + 1]),
    );
    assert forall|i: int| 0 <= i < clip.len() implies read[i] == clip[i] by {
        assert(call_ensures(
            arithmetic.accumulate,
            (before[position + 2 * i], clip[i].0, gain),
            after[position + 2 * i],
        ));
        assert(call_ensures(
            arithmetic.accumulate,
            (before[position + 2 * i + 1], clip[i].1, gain),
            after[position + 2 * i + 1],
        ));
    }
    assert(read =~= clip);
}

/// Music is heard in every slot: in an even one the left sample of the frame for that very slot, in
/// an odd one the right sample, and silence where the music has no frame.
pub proof fn law_music<T, S, L, D, A>(
    arithmetic: Arithmetic<L, D, A>,
    sample: S,
    silence: T,
    gain: T,
    before: Seq<T>,
    after: Seq<T>,
) where
    S: Fn(usize) -> Option<(T, T)>,
    L: Fn(Single) -> T,
    D: Fn(T, T) -> T,
    A: Fn(T, T, T) -> T,

    requires
        music_added(arithmetic, sample, silence, gain, before, after),
    ensures
        after.len() == before.len(),
        exists|heard: Seq<Option<(T, T)>>|
            {
                &&& #[trigger] heard.len() == before.len()
                &&& forall|i: int|
                    0 <= i < before.len() ==> call_ensures(sample, (i as usize,), #[trigger] heard[i])
                &&& forall|i: int|
                    0 <= i < before.len() ==> call_ensures(
                        arithmetic.accumulate,
                        (
                            before[i],
                            match #[trigger] heard[i] {
                                Some(frame) => if i % 2 == 0 {
                                    frame.0
                                } else {
                                    frame.1
                                },
                                None => silence,
                            },
                            gain,
                        ),
                        after[i],
                    )
            },
{
    let heard = Seq::new(
        before.len(),
        |i: int|
            choose|sampled: Option<(T, T)>|
                {
                    &&& #[trigger] call_ensures(sample, (i as usize,), sampled)
                    &&& call_ensures(
                        arithmetic.accumulate,
                        (
                            before[i],
                            match sampled {
                                Some(frame) => channel(i, frame),
                                None => silence,
                            },
                            gain,
                        ),
                        after[i],
                    )
                },
    );
    assert(heard.len() == before.len());
    assert forall|i: int| 0 <= i < before.len() implies call_ensures(
        sample,
        (i as usize,),
        #[trigger] heard[i],
    ) && call_ensures(
        arithmetic.accumulate,
        (
            before[i],
            match heard[i] {
                Some(frame) => channel(i, frame),
                None => silence,
            },
            gain,
        ),
        after[i],
    ) by {
        assert(music_slot_added(arithmetic, sample, silence, gain, i, before[i], after[i]));
    }
}

/// A single note that is not fake is heard as the sound of its kind at its position; a hold sounds
/// like a click. No note, and a fake one, is not heard.
pub proof fn law_one_note<T, L, D, A>(
    arithmetic: Arithmetic<L, D, A>,
    gain: T,
    stereo: bool,
    kit: EffectKit<T>,
    note: Note,
    before: Seq<T>,
    after: Seq<T>,
) where L: Fn(Single) -> T, D: Fn(T, T) -> T, A: Fn(T, T, T) -> T
    ensures
        notes_added(arithmetic, gain, stereo, kit, Seq::empty(), before, after) <==> after == before,
        note.fake ==> (notes_added(arithmetic, gain, stereo, kit, seq![note], before, after)
            <==> after == before),
        !note.fake ==> (notes_added(arithmetic, gain, stereo, kit, seq![note], before, after)
            <==> clip_added(
            arithmetic,
            gain,
            stereo,
            (match note.kind {
                NoteKind::Click => kit.click,
                NoteKind::Hold => kit.click,
                NoteKind::Drag => kit.drag,
                NoteKind::Flick => kit.flick,
            })@,
            note.position as int,
            before,
            after,
        )),
{
    let one = seq![note];
    assert(one.drop_last() == Seq::<Note>::empty());
    assert(one.last() == note);
    assert(notes_added(arithmetic, gain, stereo, kit, one.drop_last(), before, before));
    if notes_added(arithmetic, gain, stereo, kit, one, before, after) {
        let middle = lemma_last_note(arithmetic, gain, stereo, kit, one, before, after);
        assert(middle == before);
    }
    if note_added(arithmetic, gain, stereo, kit, note, before, after) {
        lemma_push_note(arithmetic, gain, stereo, kit, one, before, before, after);
    }
}

/// Adding the last note completes the rest.
proof fn lemma_push_note<T, L, D, A>(
    arithmetic: Arithmetic<L, D, A>,
    gain: T,
    stereo: bool,
    kit: EffectKit<T>,
    notes: Seq<Note>,
    before: Seq<T>,
    middle: Seq<T>,
    after: Seq<T>,
) where L: Fn(Single) -> T, D: Fn(T, T) -> T, A: Fn(T, T, T) -> T
    requires
        notes.len() > 0,
        notes_added(arithmetic, gain, stereo, kit, notes.drop_last(), before, middle),
        note_added(arithmetic, gain, stereo, kit, notes.last(), middle, after),
    ensures
        notes_added(arithmetic, gain, stereo, kit, notes, before, after),
{
}

/// Adding the last line completes the rest.
proof fn lemma_push_line<T, L, D, A>(
    arithmetic: Arithmetic<L, D, A>,
    gain: T,
    stereo: bool,
    kit: EffectKit<T>,
    lines: Seq<Vec<Note>>,
    before: Seq<T>,
    middle: Seq<T>,
    after: Seq<T>,
) where L: Fn(Single) -> T, D: Fn(T, T) -> T, A: Fn(T, T, T) -> T
    requires
        lines.len() > 0,
        lines_added(arithmetic, gain, stereo, kit, lines.drop_last(), before, middle),
        notes_added(arithmetic, gain, stereo, kit, lines.last()@, middle, after),
    ensures
        lines_added(arithmetic, gain, stereo, kit, lines, before, after),
{
}

/// Notes one after the other: those of the one list are heard on what the other left.
pub proof fn law_notes_in_turn<T, L, D, A>(
    arithmetic: Arithmetic<L, D, A>,
    gain: T,
    stereo: bool,
    kit: EffectKit<T>,
    a: Seq<Note>,
    b: Seq<Note>,
    before: Seq<T>,
    after: Seq<T>,
) where L: Fn(Single) -> T, D: Fn(T, T) -> T, A: Fn(T, T, T) -> T
    ensures
        notes_added(arithmetic, gain, stereo, kit, a + b, before, after) <==> exists|middle: Seq<T>|
            {
                &&& #[trigger] notes_added(arithmetic, gain, stereo, kit, a, before, middle)
                &&& notes_added(arithmetic, gain, stereo, kit, b, middle, after)
            },
    decreases b.len(),
{
    if b.len() == 0 {
        assert(a + b == a);
        if notes_added(arithmetic, gain, stereo, kit, a, before, after) {
            assert(notes_added(arithmetic, gain, stereo, kit, b, after, after));
        }
    } else {
        let rest = b.drop_last();
        assert((a + b).drop_last() == a + rest);
        assert((a + b).last() == b.last());
        if notes_added(arithmetic, gain, stereo, kit, a + b, before, after) {
            let late = lemma_last_note(arithmetic, gain, stereo, kit, a + b, before, after);
            law_notes_in_turn(arithmetic, gain, stereo, kit, a, rest, before, late);
            let middle = choose|middle: Seq<T>|
                {
                    &&& #[trigger] notes_added(arithmetic, gain, stereo, kit, a, before, middle)
                    &&& notes_added(arithmetic, gain, stereo, kit, rest, middle, late)
                };
            lemma_push_note(arithmetic, gain, stereo, kit, b, middle, late, after);
        }
        if exists|middle: Seq<T>|
            {
                &&& #[trigger] notes_added(arithmetic, gain, stereo, kit, a, before, middle)
                &&& notes_added(arithmetic, gain, stereo, kit, b, middle, after)
            } {
            let middle = choose|middle: Seq<T>|
                {
                    &&& #[trigger] notes_added(arithmetic, gain, stereo, kit, a, before, middle)
                    &&& notes_added(arithmetic, gain, stereo, kit, b, middle, after)
                };
            let late = lemma_last_note(arithmetic, gain, stereo, kit, b, middle, after);
            assert(notes_added(arithmetic, gain, stereo, kit, a, before, middle));
            assert(notes_added(arithmetic, gain, stereo, kit, rest, middle, late));
            law_notes_in_turn(arithmetic, gain, stereo, kit, a, rest, before, late);
            lemma_push_note(arithmetic, gain, stereo, kit, a + b, before, late, after);
        }
    }
}

/// Lines one after the other: those of the one list are heard on what the other left.
pub proof fn law_lines_in_turn<T, L, D, A>(
    arithmetic: Arithmetic<L, D, A>,
    gain: T,
    stereo: bool,
    kit: EffectKit<T>,
    a: Seq<Vec<Note>>,
    b: Seq<Vec<Note>>,
    before: Seq<T>,
    after: Seq<T>,
) where L: Fn(Single) -> T, D: Fn(T, T) -> T, A: Fn(T, T, T) -> T
    ensures
        lines_added(arithmetic, gain, stereo, kit, a + b, before, after) <==> exists|middle: Seq<T>|
            {
                &&& #[trigger] lines_added(arithmetic, gain, stereo, kit, a, before, middle)
                &&& lines_added(arithmetic, gain, stereo, kit, b, middle, after)
            },
    decreases b.len(),
{
    if b.len() == 0 {
        assert(a + b == a);
        if lines_added(arithmetic, gain, stereo, kit, a, before, after) {
            assert(lines_added(arithmetic, gain, stereo, kit, b, after, after));
        }
    } else {
        let rest = b.drop_last();
        assert((a + b).drop_last() == a + rest);
        assert((a + b).last() == b.last());
        if lines_added(arithmetic, gain, stereo, kit, a + b, before, after) {
            let late = lemma_last_line(arithmetic, gain, stereo, kit, a + b, before, after);
            law_lines_in_turn(arithmetic, gain, stereo, kit, a, rest, before, late);
            let middle = choose|middle: Seq<T>|
                {
                    &&& #[trigger] lines_added(arithmetic, gain, stereo, kit, a, before, middle)
                    &&& lines_added(arithmetic, gain, stereo, kit, rest, middle, late)
                };
            lemma_push_line(arithmetic, gain, stereo, kit, b, middle, late, after);
        }
        if exists|middle: Seq<T>|
            {
                &&& #[trigger] lines_added(arithmetic, gain, stereo, kit, a, before, middle)
                &&& lines_added(arithmetic, gain, stereo, kit, b, middle, after)
            } {
            let middle = choose|middle: Seq<T>|
                {
                    &&& #[trigger] lines_added(arithmetic, gain, stereo, kit, a, before, middle)
                    &&& lines_added(arithmetic, gain, stereo, kit, b, middle, after)
                };
            let late = lemma_last_line(arithmetic, gain, stereo, kit, b, middle, after);
            assert(lines_added(arithmetic, gain, stereo, kit, a, before, middle));
            assert(lines_added(arithmetic, gain, stereo, kit, rest, middle, late));
            law_lines_in_turn(arithmetic, gain, stereo, kit, a, rest, before, late);
            lemma_push_line(arithmetic, gain, stereo, kit, a + b, before, late, after);
        }
    }
}

/// A single line is heard as its notes are, one after the other; no line is not heard.
pub proof fn law_one_line<T, L, D, A>(
    arithmetic: Arithmetic<L, D, A>,
    gain: T,
    stereo: bool,
    kit: EffectKit<T>,
    line: Vec<Note>,
    before: Seq<T>,
    after: Seq<T>,
) where L: Fn(Single) -> T, D: Fn(T, T) -> T, A: Fn(T, T, T) -> T
    ensures
        lines_added(arithmetic, gain, stereo, kit, Seq::empty(), before, after) <==> after == before,
        lines_added(arithmetic, gain, stereo, kit, seq![line], before, after) <==> notes_added(
            arithmetic,
            gain,
            stereo,
            kit,
            line@,
            before,
            after,
        ),
{
    let one = seq![line];
    assert(one.drop_last() == Seq::<Vec<Note>>::empty());
    assert(one.last() == line);
    assert(lines_added(arithmetic, gain, stereo, kit, one.drop_last(), before, before));
    if lines_added(arithmetic, gain, stereo, kit, one, before, after) {
        let middle = lemma_last_line(arithmetic, gain, stereo, kit, one, before, after);
        assert(middle == before);
    }
    if notes_added(arithmetic, gain, stereo, kit, line@, before, after) {
        lemma_push_line(arithmetic, gain, stereo, kit, one, before, before, after);
    }
}

/// The jingle is heard at its first position; and where it is repeated and a frame of it fits
/// there, then at the others in the same way.
pub proof fn law_jingle_in_turn<T, L, D, A>(
    arithmetic: Arithmetic<L, D, A>,
    gain: T,
    stereo: bool,
    jingle: Seq<(T, T)>,
    positions: Seq<usize>,
    repeat: bool,
    before: Seq<T>,
    after: Seq<T>,
) where L: Fn(Single) -> T, D: Fn(T, T) -> T, A: Fn(T, T, T) -> T
    requires
        positions.len() > 0,
    ensures
        !repeat || jingle.len() == 0 || positions[0] + 1 >= before.len() ==> (ending_added(
            arithmetic,
            gain,
            stereo,
            jingle,
            positions,
            repeat,
            before,
            after,
        ) <==> clip_added(
            arithmetic,
            gain,
            stereo,
            jingle,
            positions[0] as int,
            before,
            after,
        )),
        repeat && jingle.len() > 0 && positions[0] + 1 < before.len() ==> (ending_added(
            arithmetic,
            gain,
            stereo,
            jingle,
            positions,
            repeat,
            before,
            after,
        ) <==> exists|middle: Seq<T>|
            {
                &&& #[trigger] clip_added(
                    arithmetic,
                    gain,
                    stereo,
                    jingle,
                    positions[0] as int,
                    before,
                    middle,
                )
                &&& ending_added(
                    arithmetic,
                    gain,
                    stereo,
                    jingle,
                    positions.skip(1),
                    repeat,
                    middle,
                    after,
                )
            }),
{
    assert(positions.skip(1) == positions.drop_first());
    if ending_added(arithmetic, gain, stereo, jingle, positions, repeat, before, after) {
        let middle = lemma_first_jingle(
            arithmetic,
            gain,
            stereo,
            jingle,
            positions,
            repeat,
            before,
            after,
        );
    }
    if clip_added(arithmetic, gain, stereo, jingle, positions[0] as int, before, after) {
    }
}

/// The jingle is repeated exactly where the ending screen lasts longer than a tenth of a second: for
/// the patterns above that of 0.1 and up to that of infinity.
pub proof fn law_jingle_repeats(ending_length: Double)
    ensures
        jingle_repeats(ending_length) <==> 0x3fb9_9999_9999_999a < ending_length.bits
            <= 0x7ff0_0000_0000_0000,
{
}

/// A track starts silent. The music is heard in it, unless its volume is a zero; then the notes,
/// unless theirs is; and then the jingle, in any case and at the volume of the music.
pub proof fn law_stages<T, S, L, D, A>(
    arithmetic: Arithmetic<L, D, A>,
    sample: S,
    score: Score<T>,
    track: Seq<T>,
) where
    S: Fn(usize) -> Option<(T, T)>,
    L: Fn(Single) -> T,
    D: Fn(T, T) -> T,
    A: Fn(T, T, T) -> T,

    requires
        mixed(arithmetic, sample, score, track),
    ensures
        exists|gain: T, sfx_gain: T, silent: Seq<T>, bed: Seq<T>, scored: Seq<T>|
            {
                &&& call_ensures(arithmetic.level, (score.volume_music,), gain)
                &&& silent.len() == 2 * score.frames
                &&& forall|i: int| 0 <= i < silent.len() ==> silent[i] == score.silence
                &&& score.volume_music.bits != 0 && score.volume_music.bits != 0x8000_0000
                    ==> #[trigger] music_added(
                    arithmetic,
                    sample,
                    score.silence,
                    gain,
                    silent,
                    bed,
                )
                &&& score.volume_music.bits == 0 || score.volume_music.bits == 0x8000_0000 ==> bed
                    == silent
                &&& score.volume_sfx.bits != 0 && score.volume_sfx.bits != 0x8000_0000
                    ==> call_ensures(arithmetic.level, (score.volume_sfx,), sfx_gain)
                &&& score.volume_sfx.bits != 0 && score.volume_sfx.bits != 0x8000_0000
                    ==> #[trigger] lines_added(
                    arithmetic,
                    sfx_gain,
                    score.stereo,
                    score.kit,
                    score.lines@,
                    bed,
                    scored,
                )
                &&& score.volume_sfx.bits == 0 || score.volume_sfx.bits == 0x8000_0000 ==> scored
                    == bed
                &&& ending_added(
                    arithmetic,
                    gain,
                    score.stereo,
                    score.jingle@,
                    score.jingle_positions@,
                    0x3fb9_9999_9999_999a < score.ending_length.bits <= 0x7ff0_0000_0000_0000,
                    scored,
                    track,
                )
            },
{
    let (gain, sfx_gain, bed, scored) = lemma_stages(arithmetic, sample, score, track);
    let silent = silent_track(score);
    law_jingle_repeats(score.ending_length);
    let heard = music_added(arithmetic, sample, score.silence, gain, silent, bed);
    let played = lines_added(
        arithmetic,
        sfx_gain,
        score.stereo,
        score.kit,
        score.lines@,
        bed,
        scored,
    );
}

/// Without music and jingle, a score with a single note sounds like that note: its sound from its
/// position on, frame `i` in the slots `2 * i` and `2 * i + 1` behind it, and silence elsewhere.
pub proof fn law_single_note<T, S, L, D, A>(
    arithmetic: Arithmetic<L, D, A>,
    sample: S,
    score: Score<T>,
    note: Note,
    track: Seq<T>,
) where
    S: Fn(usize) -> Option<(T, T)>,
    L: Fn(Single) -> T,
    D: Fn(T, T) -> T,
    A: Fn(T, T, T) -> T,

    requires
        mixed(arithmetic, sample, score, track),
        score.volume_music.bits == 0,
        score.volume_sfx.bits != 0,
        score.volume_sfx.bits != 0x8000_0000,
        score.stereo,
        score.lines@.len() == 1,
        score.lines@[0]@ == seq![note],
        !note.fake,
        score.jingle@.len() == 0,
    ensures
        track.len() == 2 * score.frames,
        ({
            let sound = (match note.kind {
                NoteKind::Click => score.kit.click,
                NoteKind::Hold => score.kit.click,
                NoteKind::Drag => score.kit.drag,
                NoteKind::Flick => score.kit.flick,
            })@;
            let start = note.position as int;
            &&& exists|gain: T|
                {
                    &&& #[trigger] call_ensures(arithmetic.level, (score.volume_sfx,), gain)
                    &&& forall|i: int|
                        0 <= i < sound.len() && start + 2 * i + 1 < track.len() ==> {
                            &&& call_ensures(
                                arithmetic.accumulate,
                                (score.silence, (#[trigger] sound[i]).0, gain),
                                track[start + 2 * i],
                            )
                            &&& call_ensures(
                                arithmetic.accumulate,
                                (score.silence, sound[i].1, gain),
                                track[start + 2 * i + 1],
                            )
                        }
                }
            &&& forall|j: int|
                0 <= j < track.len() && (j < start || j >= start + 2 * sound.len()) ==> (
                #[trigger] track[j]) == score.silence
        }),
{
    let (gain, sfx_gain, bed, scored) = lemma_stages(arithmetic, sample, score, track);
    let silent = silent_track(score);
    assert(bed == silent);
    assert(score.lines@ == seq![score.lines@[0]]);
    law_one_line(
        arithmetic,
        sfx_gain,
        score.stereo,
        score.kit,
        score.lines@[0],
        silent,
        scored,
    );
    law_one_note(arithmetic, sfx_gain, score.stereo, score.kit, note, silent, scored);
    law_clip_in_stereo(
        arithmetic,
        sfx_gain,
        (match note.kind {
            NoteKind::Click => score.kit.click,
            NoteKind::Hold => score.kit.click,
            NoteKind::Drag => score.kit.drag,
            NoteKind::Flick => score.kit.flick,
        })@,
        note.position as int,
        silent,
        scored,
    );
    if score.jingle_positions@.len() > 0 {
        law_jingle_in_turn(
            arithmetic,
            gain,
            score.stereo,
            score.jingle@,
            score.jingle_positions@,
            jingle_repeats(score.ending_length),
            scored,
            track,
        );
    }
    assert(track == scored);
    assert(call_ensures(arithmetic.level, (score.volume_sfx,), sfx_gain));
}

/// Where adding a sample to a slot just gives the sample, the sound of a single note is read back
/// from the track: its frames in order and each once.
pub proof fn law_single_note_is_read_back<T, S, L, D, A>(
    arithmetic: Arithmetic<L, D, A>,
    sample: S,
    score: Score<T>,
    note: Note,
    track: Seq<T>,
) where
    S: Fn(usize) -> Option<(T, T)>,
    L: Fn(Single) -> T,
    D: Fn(T, T) -> T,
    A: Fn(T, T, T) -> T,

    requires
        mixed(arithmetic, sample, score, track),
        score.volume_music.bits == 0,
        score.volume_sfx.bits != 0,
        score.volume_sfx.bits != 0x8000_0000,
        score.stereo,
        score.lines@.len() == 1,
        score.lines@[0]@ == seq![note],
        !note.fake,
        score.jingle@.len() == 0,
        forall|slot: T, value: T, g: T, sum: T|
            call_ensures(arithmetic.accumulate, (slot, value, g), sum) ==> sum == value,
    ensures
        ({
            let sound = (match note.kind {
                NoteKind::Click => score.kit.click,
                NoteKind::Hold => score.kit.click,
                NoteKind::Drag => score.kit.drag,
                NoteKind::Flick => score.kit.flick,
            })@;
            let start = note.position as int;
            forall|i: int|
                0 <= i < sound.len() && start + 2 * i + 1 < 2 * score.frames ==> (#[trigger] sound[i])
                    == (track[start + 2 * i], track[start + 2 * i + 1])
        }),
{
    law_single_note(arithmetic, sample, score, note, track);
}

} // verus!
