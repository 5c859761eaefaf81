use chart_render::ieee::{Double, Single};
use chart_render::mixer::{
    mix_effects, mix_ending, mix_music, mixdown, place, rates_match, Arithmetic, EffectKit, Note,
    NoteKind, Score, SAMPLE_RATE,
};

fn arithmetic() -> Arithmetic<
    impl Fn(Single) -> f32,
    impl Fn(f32, f32) -> f32,
    impl Fn(f32, f32, f32) -> f32,
> {
    Arithmetic {
        level: |v: Single| f32::from_bits(v.bits),
        downmix: |l: f32, r: f32| (l + r) / 2.0,
        accumulate: |slot: f32, value: f32, gain: f32| slot + value * gain,
    }
}

fn kit() -> EffectKit<f32> {
    EffectKit {
        click: vec![(1.0, 2.0), (3.0, 4.0)],
        drag: vec![(10.0, 20.0)],
        flick: vec![(100.0, 200.0)],
    }
}

fn note(kind: NoteKind, fake: bool, position: usize) -> Note {
    Note { kind, fake, position }
}

#[test]
fn a_stereo_clip_keeps_its_channels() {
    let mut track = vec![0.5f32; 6];
    let count = place(&mut track, 2, &kit().click, 0.5, true, &arithmetic());
    assert_eq!(count, 2);
    assert_eq!(track, vec![0.5, 0.5, 1.0, 1.5, 2.0, 2.5]);
}

#[test]
fn a_mono_clip_is_the_same_on_both_channels() {
    let mut track = vec![0.0f32; 4];
    let count = place(&mut track, 0, &kit().click, 2.0, false, &arithmetic());
    assert_eq!(count, 2);
    assert_eq!(track, vec![3.0, 3.0, 7.0, 7.0]);
}

#[test]
fn a_clip_is_cut_at_the_end() {
    let mut track = vec![0.0f32; 5];
    assert_eq!(place(&mut track, 2, &kit().click, 1.0, true, &arithmetic()), 1);
    assert_eq!(track, vec![0.0, 0.0, 1.0, 2.0, 0.0]);
    assert_eq!(place(&mut track, 4, &kit().click, 1.0, true, &arithmetic()), 0);
    assert_eq!(place(&mut track, 5, &kit().click, 1.0, true, &arithmetic()), 0);
    assert_eq!(place(&mut track, usize::MAX, &kit().click, 1.0, true, &arithmetic()), 0);
    assert_eq!(track, vec![0.0, 0.0, 1.0, 2.0, 0.0]);
    assert_eq!(place(&mut track, 1, &Vec::new(), 1.0, true, &arithmetic()), 0);
}

#[test]
fn music_alternates_channels() {
    let mut track = vec![1.0f32; 5];
    let sample = |i: usize| if i < 4 { Some((i as f32, 10.0 * i as f32)) } else { None };
    mix_music(&mut track, &sample, 0.0, 2.0, &arithmetic());
    assert_eq!(track, vec![1.0, 21.0, 5.0, 61.0, 1.0]);
}

#[test]
fn notes_sound_by_kind() {
    let mut track = vec![0.0f32; 8];
    let lines = vec![
        vec![note(NoteKind::Click, false, 0), note(NoteKind::Drag, true, 0)],
        vec![],
        vec![
            note(NoteKind::Hold, false, 4),
            note(NoteKind::Flick, false, 2),
            note(NoteKind::Drag, false, 6),
        ],
    ];
    mix_effects(&mut track, &lines, &kit(), 1.0, true, &arithmetic());
    assert_eq!(track, vec![1.0, 2.0, 103.0, 204.0, 1.0, 2.0, 13.0, 24.0]);
}

#[test]
fn fake_notes_are_not_heard() {
    let mut track = vec![0.25f32; 4];
    let lines = vec![vec![note(NoteKind::Click, true, 0), note(NoteKind::Flick, true, 2)]];
    mix_effects(&mut track, &lines, &kit(), 1.0, true, &arithmetic());
    assert_eq!(track, vec![0.25; 4]);
}

#[test]
fn the_jingle_repeats_until_the_end() {
    let jingle = vec![(1.0f32, 2.0f32)];
    let mut track = vec![0.0f32; 7];
    mix_ending(&mut track, &jingle, &vec![2, 4, 6, 0], true, 1.0, true, &arithmetic());
    assert_eq!(track, vec![0.0, 0.0, 1.0, 2.0, 1.0, 2.0, 0.0]);
    let mut track = vec![0.0f32; 7];
    mix_ending(&mut track, &jingle, &vec![2, 4, 6, 0], false, 1.0, true, &arithmetic());
    assert_eq!(track, vec![0.0, 0.0, 1.0, 2.0, 0.0, 0.0, 0.0]);
}

#[test]
fn positions_after_the_end_do_not_matter() {
    let jingle = vec![(1.0f32, 2.0f32)];
    let mut first = vec![0.0f32; 4];
    mix_ending(&mut first, &jingle, &vec![2, 4], true, 1.0, true, &arithmetic());
    let mut second = vec![0.0f32; 4];
    mix_ending(&mut second, &jingle, &vec![2, 4, 0, 1], true, 1.0, true, &arithmetic());
    assert_eq!(first, vec![0.0, 0.0, 1.0, 2.0]);
    assert_eq!(second, first);
}

fn score(music: f32, sfx: f32, ending_length: f64) -> Score<f32> {
    Score {
        frames: 4,
        silence: 0.0,
        volume_music: Single { bits: music.to_bits() },
        volume_sfx: Single { bits: sfx.to_bits() },
        stereo: true,
        kit: kit(),
        lines: vec![vec![note(NoteKind::Drag, false, 0)]],
        jingle: vec![(1000.0, 2000.0)],
        jingle_positions: vec![4, 6, 8],
        ending_length: Double { bits: ending_length.to_bits() },
    }
}

#[test]
fn a_whole_track() {
    let sample = |i: usize| Some((i as f32, -(i as f32)));
    let track = mixdown(&score(1.0, 0.5, 1.0), &sample, &arithmetic());
    assert_eq!(track, vec![5.0, 9.0, 2.0, -3.0, 1004.0, 1995.0, 1006.0, 1993.0]);
    let track = mixdown(&score(1.0, 0.5, 0.1), &sample, &arithmetic());
    assert_eq!(track, vec![5.0, 9.0, 2.0, -3.0, 1004.0, 1995.0, 6.0, -7.0]);
}

#[test]
fn zero_volumes_leave_sounds_out() {
    let panicking = |_: usize| -> Option<(f32, f32)> { panic!("the music is not to be sampled") };
    let track = mixdown(&score(0.0, -0.0, 1.0), &panicking, &arithmetic());
    assert_eq!(track, vec![0.0; 8]);
    let track = mixdown(&score(-0.0, 1.0, 1.0), &panicking, &arithmetic());
    assert_eq!(track, vec![10.0, 20.0, 0.0, 0.0, 0.0, 0.0, 0.0, 0.0]);
}

#[test]
fn sample_rates() {
    assert_eq!(SAMPLE_RATE, 96000);
    assert!(rates_match(96000, 96000, 96000, 96000));
    assert!(!rates_match(44100, 96000, 96000, 96000));
    assert!(!rates_match(96000, 44100, 96000, 96000));
    assert!(!rates_match(96000, 96000, 44100, 96000));
    assert!(!rates_match(96000, 96000, 96000, 44100));
}

#[test]
fn a_silent_score() {
    let mut quiet = score(0.0, 0.0, 5.0);
    quiet.silence = 0.125;
    quiet.jingle = Vec::new();
    let sample = |_: usize| Some((1.0f32, 1.0f32));
    assert_eq!(mixdown(&quiet, &sample, &arithmetic()), vec![0.125; 8]);
}
