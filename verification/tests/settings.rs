use chart_render::config::{ChartInfo, Mods, RenderConfig, RenderParams};
use chart_render::error::RenderError;
use chart_render::ieee::{Double, Single};
use chart_render::mixer::TENTH_BITS;
use chart_render::player::build_player;
use chart_render::request::{accept_path, output_path};

fn single(x: f32) -> Single {
    Single { bits: x.to_bits() }
}

fn double(x: f64) -> Double {
    Double { bits: x.to_bits() }
}

fn sample_config() -> RenderConfig {
    RenderConfig {
        resolution: (1920, 1080),
        ffmpeg_preset: "medium p4 balanced".to_string(),
        ending_length: double(-2.0),
        disable_loading: true,
        chart_debug: true,
        flid_x: false,
        chart_ratio: single(1.0),
        buffer_size: single(256.0),
        combo: "AUTOPLAY".to_string(),
        fps: 60,
        hardware_accel: false,
        hevc: false,
        bitrate_control: "CRF".to_string(),
        bitrate: "28".to_string(),
        aggressive: true,
        challenge_color: "golden".to_string(),
        challenge_rank: 45,
        disable_effect: false,
        double_hint: true,
        fxaa: false,
        note_scale: single(1.25),
        particle: true,
        player_avatar: None,
        player_name: "Mivik".to_string(),
        player_rks: single(15.0),
        sample_count: 4,
        res_pack_path: Some("pack.zip".to_string()),
        speed: single(1.5),
        volume_music: single(0.75),
        volume_sfx: single(0.5),
    }
}

#[test]
fn settings_reach_the_player() {
    let settings = sample_config();
    let config = settings.to_config();
    assert!(config.aggressive);
    assert_eq!(config.challenge_color, "golden");
    assert_eq!(config.challenge_rank, 45);
    assert!(!config.disable_effect);
    assert!(config.double_hint);
    assert!(!config.fxaa);
    assert_eq!(config.note_scale, single(1.25));
    assert!(config.particle);
    assert_eq!(config.player_name, "Mivik");
    assert_eq!(config.player_rks, single(15.0));
    assert_eq!(config.sample_count, 4);
    assert_eq!(config.res_pack_path.as_deref(), Some("pack.zip"));
    assert_eq!(config.speed, single(1.5));
    assert_eq!(config.volume_music, single(0.75));
    assert_eq!(config.volume_sfx, single(0.5));
    assert!(config.chart_debug);
    assert_eq!(config.chart_ratio, single(1.0));
    assert_eq!(config.buffer_size, single(256.0));
    assert_eq!(config.combo, "AUTOPLAY");
    assert!(!config.flid_x);
    assert_eq!(config.mods, Mods::Standard);
}

#[test]
fn taking_the_volumes_silences_the_player() {
    let mut config = sample_config().to_config();
    assert_eq!(config.take_volumes(), (single(0.75), single(0.5)));
    assert_eq!(config.volume_music, single(0.0));
    assert_eq!(config.volume_sfx, single(0.0));
    assert_eq!(config.take_volumes(), (single(0.0), single(0.0)));
    assert_eq!(config.speed, single(1.5));
}

#[test]
fn a_render_plays_on_its_own_and_in_silence() {
    let params = RenderParams {
        path: "/charts/a.zip".to_string(),
        info: ChartInfo { music: "song.ogg".to_string() },
        config: sample_config(),
    };
    let setup = params.clone().prepare();
    assert_eq!(setup.path, "/charts/a.zip");
    assert_eq!(setup.music, "song.ogg");
    assert_eq!(setup.config.mods, Mods::Autoplay);
    assert_eq!(setup.config.volume_music, single(0.0));
    assert_eq!(setup.config.volume_sfx, single(0.0));
    assert_eq!(setup.volume_music, single(0.75));
    assert_eq!(setup.volume_sfx, single(0.5));
    assert_eq!(setup.config.player_name, "Mivik");
}

#[test]
fn a_player_without_avatar() {
    let player = build_player::<String>(&sample_config(), None).unwrap();
    assert_eq!(player.avatar, None);
    assert_eq!(player.id, 0);
    assert_eq!(player.rks, single(15.0));
    let player = build_player::<String>(&sample_config(), Some(Ok(vec![1]))).unwrap();
    assert_eq!(player.avatar, None);
}

#[test]
fn a_player_with_avatar() {
    let mut settings = sample_config();
    settings.player_avatar = Some("me.png".to_string());
    let player = build_player::<String>(&settings, Some(Ok(vec![137, 80, 78, 71]))).unwrap();
    assert_eq!(player.avatar, Some(vec![137, 80, 78, 71]));
    assert_eq!(player.id, 0);
    assert_eq!(player.rks, single(15.0));
}

#[test]
fn an_avatar_that_cannot_be_read() {
    let mut settings = sample_config();
    settings.player_avatar = Some("me.png".to_string());
    let refusal = build_player(&settings, Some(Err("no such file".to_string()))).unwrap_err();
    assert_eq!(refusal.cause, "no such file");
    assert_eq!(refusal.message(), "load-avatar-failed");
}

#[test]
fn zero_volumes() {
    for x in [0.0f32, -0.0, 1.0, -1.0, f32::MIN_POSITIVE, f32::from_bits(1), f32::NAN, f32::INFINITY] {
        assert_eq!(single(x).is_nonzero(), x != 0.0, "{}", x);
    }
    assert_eq!(Single::zero(), single(0.0));
}

#[test]
fn comparisons_of_doubles() {
    let values = [
        0.0f64,
        -0.0,
        0.1,
        0.10000000000000002,
        0.09999999999999999,
        -0.1,
        1.0,
        -1.0,
        3.5,
        f64::MIN_POSITIVE,
        f64::from_bits(1),
        -f64::from_bits(1),
        f64::INFINITY,
        f64::NEG_INFINITY,
        f64::NAN,
        -f64::NAN,
    ];
    for a in values {
        for b in values {
            assert_eq!(double(a).is_above(double(b)), a > b, "{} > {}", a, b);
        }
    }
    assert_eq!(TENTH_BITS, 0.1f64.to_bits());
}

#[test]
fn output_paths() {
    assert_eq!(output_path("\"/tmp/out.mp4\"\n").unwrap(), "/tmp/out.mp4");
    assert_eq!(output_path("  \"a b\"  ").unwrap(), "a b");
    assert_eq!(output_path("\"C:\\\\videos\\\\a.mov\"").unwrap(), "C:\\videos\\a.mov");
    assert_eq!(output_path("\"\\u00e9\"").unwrap(), "é");
    assert_eq!(output_path("\"\"").unwrap(), "");
    for line in ["", "   ", "/tmp/out.mp4", "\"open", "17", "null", "\"a\" \"b\"", "{}"] {
        let cause = serde_json::from_str::<std::path::PathBuf>(line.trim()).unwrap_err();
        match output_path(line) {
            Err(RenderError::OutputPath(error)) => {
                assert_eq!(error.to_string(), cause.to_string(), "{}", line)
            }
            other => panic!("{}: {:?}", line, other),
        }
    }
}

#[test]
fn parsed_paths() {
    assert_eq!(accept_path(serde_json::from_str("\"x\"")).unwrap(), "x");
    let cause = serde_json::from_str::<String>("x").unwrap_err();
    let words = cause.to_string();
    match accept_path(Err(cause)) {
        Err(RenderError::OutputPath(error)) => assert_eq!(error.to_string(), words),
        other => panic!("{:?}", other),
    }
}

#[test]
fn messages_of_errors() {
    assert_eq!(RenderError::NoHardwareEncoder.message(), Some("no-hwacc"));
    assert_eq!(RenderError::FfmpegMissing.message(), Some("FFmpeg not found"));
    let cause = serde_json::from_str::<String>("x").unwrap_err();
    assert_eq!(RenderError::OutputPath(cause).message(), None);
    let cause = String::from_utf8(vec![0xff]).unwrap_err();
    assert_eq!(RenderError::ListingEncoding(cause).message(), None);
}

#[test]
fn copies_of_settings_are_equal() {
    let settings = sample_config();
    assert_eq!(format!("{:?}", settings.clone()), format!("{:?}", settings));
    let config = settings.to_config();
    assert_eq!(format!("{:?}", config.clone()), format!("{:?}", config));
}
