use chart_render::events::IPCEvent;
use chart_render::ffmpeg::{
    bundled_name, find_ffmpeg, hidden_creation_flags, require_ffmpeg, FfmpegSearch, SearchEvent,
};
use chart_render::error::RenderError;
use chart_render::frames::{
    frame_bytes, needs_resolve, plan_round, viewport, Round, Target, TargetSelector,
};
use chart_render::ieee::Double;
use chart_render::session::{Action, Outcome, Session};

fn outcome_of(action: Action, frames: u64, elapsed: Double) -> Outcome {
    match action {
        Action::MixTrack => Outcome::Mixed(frames),
        Action::CloseEncoder => Outcome::Closed(elapsed),
        _ => Outcome::Done,
    }
}

fn course(frames: u64, elapsed: Double) -> Vec<Action> {
    let mut session = Session::new();
    let mut actions = Vec::new();
    let mut outcome = Outcome::Done;
    loop {
        let action = session.next(outcome);
        if action == Action::Stop {
            break;
        }
        outcome = outcome_of(action, frames, elapsed);
        actions.push(action);
    }
    assert_eq!(session.next(Outcome::Done), Action::Stop);
    actions
}

#[test]
fn a_short_video() {
    let elapsed = Double { bits: 2.5f64.to_bits() };
    assert_eq!(
        course(4, elapsed),
        vec![
            Action::Send(IPCEvent::StartMixing),
            Action::MixTrack,
            Action::Send(IPCEvent::StartRender(4)),
            Action::OpenEncoder,
            Action::Send(IPCEvent::StartRender(4)),
            Action::Draw(Round { frame: 3, write_slot: 0, read_slot: 1 }),
            Action::Send(IPCEvent::Frame),
            Action::Draw(Round { frame: 4, write_slot: 1, read_slot: 2 }),
            Action::Send(IPCEvent::Frame),
            Action::Draw(Round { frame: 5, write_slot: 2, read_slot: 0 }),
            Action::Send(IPCEvent::Frame),
            Action::CloseEncoder,
            Action::Send(IPCEvent::Done(elapsed)),
        ]
    );
}

#[test]
fn videos_without_rounds() {
    let elapsed = Double { bits: 1.0f64.to_bits() };
    for frames in [0, 1] {
        assert_eq!(
            course(frames, elapsed),
            vec![
                Action::Send(IPCEvent::StartMixing),
                Action::MixTrack,
                Action::Send(IPCEvent::StartRender(frames)),
                Action::OpenEncoder,
                Action::Send(IPCEvent::StartRender(frames)),
                Action::CloseEncoder,
                Action::Send(IPCEvent::Done(elapsed)),
            ]
        );
    }
}

#[test]
fn frames_are_delivered_two_rounds_later() {
    let mut buffers: [Option<u64>; 3] = [None; 3];
    let mut drawn = 0;
    let mut reported = 0;
    for action in course(50, Double { bits: 0 }) {
        match action {
            Action::Send(IPCEvent::Frame) => reported += 1,
            Action::Draw(round) => {
                assert_ne!(round.write_slot, round.read_slot);
                assert_eq!(plan_round(round.frame), round);
                buffers[round.write_slot] = Some(round.frame);
                let delivered = buffers[round.read_slot];
                if round.frame < 5 {
                    assert_eq!(delivered, None);
                } else {
                    assert_eq!(delivered, Some(round.frame - 2));
                }
                drawn += 1;
                assert_eq!(drawn, reported + 1);
            }
            _ => {}
        }
    }
    assert_eq!(drawn, 49);
    assert_eq!(reported, 49);
}

#[test]
fn sizes() {
    assert_eq!(frame_bytes((1920, 1080)), 8294400);
    assert_eq!(frame_bytes((0, 1080)), 0);
    assert_eq!(viewport((1920, 1080)), (0, 0, 1920, 1080));
    assert_eq!(viewport((u32::MAX, 1)), (0, 0, -1, 1));
}

#[test]
fn render_targets() {
    let mut selector = TargetSelector::new();
    let answers: Vec<Target> = (0..5).map(|_| selector.next()).collect();
    assert_eq!(
        answers,
        vec![Target::Input, Target::Output, Target::Input, Target::Output, Target::Output]
    );
    assert_eq!(selector.answered(), 5);
    assert!(needs_resolve(Some(Target::Input)));
    assert!(!needs_resolve(Some(Target::Output)));
    assert!(!needs_resolve(None));
}

fn search(
    global_runs: bool,
    bundled: Result<&str, String>,
    bundled_runs: bool,
) -> Result<Option<String>, String> {
    let mut state = FfmpegSearch::TryGlobal;
    loop {
        let event = match &state {
            FfmpegSearch::TryGlobal => SearchEvent::Probed(global_runs),
            FfmpegSearch::LocateBundled => match &bundled {
                Ok(path) => SearchEvent::Located(path.to_string()),
                Err(error) => SearchEvent::Unlocated(error.clone()),
            },
            FfmpegSearch::TryBundled(path) => {
                assert_eq!(Ok(path.as_str()), bundled);
                SearchEvent::Probed(bundled_runs)
            }
            FfmpegSearch::Done(_) | FfmpegSearch::Failed(_) => return state.result(),
        };
        state = find_ffmpeg(state, event);
    }
}

#[test]
fn results_of_the_search() {
    let path = "/opt/app/ffmpeg";
    for bundled_runs in [false, true] {
        for bundled in [Ok(path), Err("no executable".to_string())] {
            assert_eq!(search(true, bundled, bundled_runs), Ok(Some("ffmpeg".to_string())));
        }
        let failed = search(false, Err("no executable".to_string()), bundled_runs);
        assert_eq!(failed, Err("no executable".to_string()));
    }
    assert_eq!(search(false, Ok(path), true), Ok(Some(path.to_string())));
    assert_eq!(search(false, Ok(path), false), Ok(None));
    assert_eq!(search(false, Ok(path), false), search(false, Ok(path), false));
}

#[test]
fn answers_to_nothing_change_nothing() {
    let located = || SearchEvent::<u8>::Located("x".to_string());
    assert!(matches!(
        find_ffmpeg(FfmpegSearch::TryGlobal, located()),
        FfmpegSearch::TryGlobal
    ));
    assert!(matches!(
        find_ffmpeg(FfmpegSearch::TryGlobal, SearchEvent::Unlocated(1u8)),
        FfmpegSearch::TryGlobal
    ));
    assert!(matches!(
        find_ffmpeg(FfmpegSearch::LocateBundled, SearchEvent::<u8>::Probed(true)),
        FfmpegSearch::LocateBundled
    ));
    assert!(matches!(
        find_ffmpeg(FfmpegSearch::TryBundled("y".to_string()), located()),
        FfmpegSearch::TryBundled(path) if path == "y"
    ));
    assert!(matches!(
        find_ffmpeg(FfmpegSearch::TryBundled("y".to_string()), SearchEvent::Unlocated(1u8)),
        FfmpegSearch::TryBundled(path) if path == "y"
    ));
    assert!(matches!(
        find_ffmpeg(FfmpegSearch::Done(None), SearchEvent::Unlocated(1u8)),
        FfmpegSearch::Done(None)
    ));
    assert!(matches!(
        find_ffmpeg(FfmpegSearch::Failed(7u8), SearchEvent::Probed(true)),
        FfmpegSearch::Failed(7)
    ));
}

#[test]
fn a_render_needs_ffmpeg() {
    assert_eq!(require_ffmpeg(Some("ffmpeg".to_string())).unwrap(), "ffmpeg");
    assert!(matches!(require_ffmpeg(None), Err(RenderError::FfmpegMissing)));
}

#[test]
fn platform_differences() {
    assert_eq!(bundled_name(true), "ffmpeg.exe");
    assert_eq!(bundled_name(false), "ffmpeg");
    assert_eq!(hidden_creation_flags(true), Some(0x08000000));
    assert_eq!(hidden_creation_flags(false), None);
}
