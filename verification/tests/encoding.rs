use chart_render::command::{encode_plan, input_args, mixing_args, output_args};
use chart_render::config::RenderConfig;
use chart_render::encoder::{accept_listing, read_listing, Encoder, Hardware};
use chart_render::error::RenderError;
use chart_render::ieee::{Double, Single};

const ZERO: Single = Single { bits: 0 };

fn settings() -> RenderConfig {
    RenderConfig {
        resolution: (1920, 1080),
        ffmpeg_preset: "medium p4 balanced".to_string(),
        ending_length: Double { bits: 0 },
        disable_loading: false,
        chart_debug: false,
        flid_x: false,
        chart_ratio: ZERO,
        buffer_size: ZERO,
        combo: String::new(),
        fps: 60,
        hardware_accel: false,
        hevc: false,
        bitrate_control: "CRF".to_string(),
        bitrate: "28".to_string(),
        aggressive: false,
        challenge_color: String::new(),
        challenge_rank: 0,
        disable_effect: false,
        double_hint: false,
        fxaa: false,
        note_scale: ZERO,
        particle: false,
        player_avatar: None,
        player_name: String::new(),
        player_rks: ZERO,
        sample_count: 1,
        res_pack_path: None,
        speed: ZERO,
        volume_music: ZERO,
        volume_sfx: ZERO,
    }
}

const NONE: Hardware = Hardware {
    cuda: false,
    qsv: false,
    amf: false,
    cuda_hevc: false,
    qsv_hevc: false,
    amf_hevc: false,
};

fn strings(list: &[&str]) -> Vec<String> {
    list.iter().map(|s| s.to_string()).collect()
}

#[test]
fn arguments_that_store_the_track() {
    assert_eq!(
        mixing_args(),
        strings(&[
            "-y", "-f", "f32le", "-ar", "96000", "-ac", "2", "-i", "-", "-c:a", "pcm_f32le", "-f",
            "wav",
        ])
    );
}

#[test]
fn listings_are_utf8() {
    assert_eq!(read_listing(b"h264_nvenc \xc3\xa9".to_vec()).unwrap(), "h264_nvenc é");
    for bytes in [vec![0x68, 0xff], vec![0xed, 0xa0, 0x80]] {
        let cause = String::from_utf8(bytes.clone()).unwrap_err();
        match read_listing(bytes) {
            Err(RenderError::ListingEncoding(error)) => assert_eq!(error, cause),
            other => panic!("{:?}", other),
        }
    }
    assert_eq!(read_listing(vec![]).unwrap(), "");
}

#[test]
fn decoded_listings() {
    assert_eq!(accept_listing(Ok("x".to_string())).unwrap(), "x");
    let cause = String::from_utf8(vec![0x61, 0x80]).unwrap_err();
    match accept_listing(Err(cause.clone())) {
        Err(RenderError::ListingEncoding(error)) => assert_eq!(error, cause),
        other => panic!("{:?}", other),
    }
}

#[test]
fn hardware_is_detected_on_request() {
    let listing = "(encoders: libx264 h264_amf h264_nvenc h264_qsv hevc_qsv )";
    assert_eq!(Hardware::detect(false, listing), NONE);
    assert_eq!(
        Hardware::detect(true, listing),
        Hardware { cuda: true, qsv: true, amf: true, qsv_hevc: true, ..NONE }
    );
    assert_eq!(
        Hardware::detect(true, "hevc_nvenc hevc_amf"),
        Hardware { cuda_hevc: true, amf_hevc: true, ..NONE }
    );
}

#[test]
fn order_of_preference() {
    let all = Hardware {
        cuda: true,
        qsv: true,
        amf: true,
        cuda_hevc: true,
        qsv_hevc: true,
        amf_hevc: true,
    };
    assert_eq!(all.select(true, false).unwrap(), Encoder::HevcNvenc);
    let hardware = Hardware { cuda_hevc: false, ..all };
    assert_eq!(hardware.select(true, true).unwrap(), Encoder::H264Nvenc);
    let hardware = Hardware { cuda: false, ..hardware };
    assert_eq!(hardware.select(true, true).unwrap(), Encoder::HevcQsv);
    let hardware = Hardware { qsv_hevc: false, ..hardware };
    assert_eq!(hardware.select(true, true).unwrap(), Encoder::H264Qsv);
    let hardware = Hardware { qsv: false, ..hardware };
    assert_eq!(hardware.select(true, true).unwrap(), Encoder::HevcAmf);
    let hardware = Hardware { amf_hevc: false, ..hardware };
    assert!(matches!(hardware.select(true, true), Err(RenderError::NoHardwareEncoder)));
    assert_eq!(hardware.select(false, true).unwrap(), Encoder::H264Amf);
    assert_eq!(NONE.select(false, true).unwrap(), Encoder::Libx265);
    assert_eq!(NONE.select(false, false).unwrap(), Encoder::Libx264);
    assert!(matches!(NONE.select(true, false), Err(RenderError::NoHardwareEncoder)));
}

#[test]
fn encoder_names() {
    let all = [
        (Encoder::HevcNvenc, "hevc_nvenc"),
        (Encoder::H264Nvenc, "h264_nvenc"),
        (Encoder::HevcQsv, "hevc_qsv"),
        (Encoder::H264Qsv, "h264_qsv"),
        (Encoder::HevcAmf, "hevc_amf"),
        (Encoder::H264Amf, "h264_amf"),
        (Encoder::Libx265, "libx265"),
        (Encoder::Libx264, "libx264"),
    ];
    for (encoder, name) in all {
        assert_eq!(encoder.name(), name);
    }
}

#[test]
fn presets_by_hardware() {
    let names = " medium p4  balanced ";
    let cuda = Hardware { cuda: true, ..NONE };
    let qsv = Hardware { qsv: true, ..NONE };
    let amf = Hardware { amf: true, ..NONE };
    assert_eq!(cuda.preset_name(names).as_deref(), Some("p4"));
    assert_eq!(qsv.preset_name(names).as_deref(), Some("medium"));
    assert_eq!(amf.preset_name(names).as_deref(), Some("balanced"));
    assert_eq!(NONE.preset_name(names).as_deref(), Some("medium"));
    assert_eq!(amf.preset_name("medium p4"), None);
    assert_eq!(NONE.preset_name(" "), None);
    assert_eq!(amf.preset_flag(), "-quality");
    assert_eq!(cuda.preset_flag(), "-preset");
    assert_eq!(NONE.preset_flag(), "-preset");
}

#[test]
fn rate_options() {
    let cuda = Hardware { cuda: true, ..NONE };
    let qsv = Hardware { qsv: true, ..NONE };
    let amf = Hardware { amf: true, ..NONE };
    assert_eq!(cuda.rate_flag("CRF"), "-cq");
    assert_eq!(qsv.rate_flag("CRF"), "-q");
    assert_eq!(amf.rate_flag("CRF"), "-qp_p");
    assert_eq!(NONE.rate_flag("CRF"), "-crf");
    assert_eq!(cuda.rate_flag("CBR"), "-b:v");
    assert_eq!(NONE.rate_flag("crf"), "-b:v");
}

#[test]
fn input_arguments() {
    assert_eq!(
        input_args((1920, 1080), 60, NONE),
        strings(&[
            "-y", "-f", "rawvideo", "-c:v", "rawvideo", "-s", "1920x1080", "-r", "60", "-pix_fmt",
            "rgba", "-i", "-", "-i",
        ])
    );
    let devices = [
        (Hardware { cuda: true, amf: true, ..NONE }, "cuda"),
        (Hardware { qsv: true, amf: true, ..NONE }, "qsv"),
        (Hardware { amf: true, ..NONE }, "d3d11va"),
    ];
    for (hardware, device) in devices {
        assert_eq!(
            input_args((640, 0), 30, hardware),
            strings(&[
                "-y", "-f", "rawvideo", "-c:v", "rawvideo", "-hwaccel_output_format", device, "-s",
                "640x0", "-r", "30", "-pix_fmt", "rgba", "-i", "-", "-i",
            ])
        );
    }
}

#[test]
fn software_plan() {
    let plan = encode_plan(&settings(), "h264_nvenc hevc_nvenc", "3.5").unwrap();
    assert_eq!(plan.encoder, Encoder::Libx264);
    assert_eq!(
        plan.output,
        strings(&[
            "-c:a", "copy", "-c:v", "libx264", "-pix_fmt", "yuv420p", "-crf", "28", "-preset",
            "medium", "-map", "0:v:0", "-map", "1:a:0", "-ss", "0.1", "-vf", "vflip", "-f", "mov",
        ])
    );
    assert_eq!(plan.input, input_args((1920, 1080), 60, NONE));
}

#[test]
fn hardware_plan() {
    let mut config = settings();
    config.hardware_accel = true;
    config.disable_loading = true;
    config.bitrate_control = "CBR".to_string();
    config.bitrate = "7M".to_string();
    let plan = encode_plan(&config, "h264_amf hevc_amf", "4.1").unwrap();
    assert_eq!(plan.encoder, Encoder::HevcAmf);
    assert_eq!(
        plan.output,
        strings(&[
            "-c:a", "copy", "-c:v", "hevc_amf", "-pix_fmt", "yuv420p", "-b:v", "7M", "-quality",
            "balanced", "-map", "0:v:0", "-map", "1:a:0", "-ss", "4.1", "-vf", "vflip", "-f", "mov",
        ])
    );
    assert_eq!(plan.input[5], "-hwaccel_output_format");
    assert_eq!(plan.input[6], "d3d11va");
}

#[test]
fn acceleration_without_hevc_is_refused() {
    let mut config = settings();
    config.hardware_accel = true;
    let refused = encode_plan(&config, "h264_nvenc h264_qsv h264_amf", "3.5");
    assert!(matches!(refused, Err(RenderError::NoHardwareEncoder)));
}

#[test]
fn settings_with_spaces_bring_more_words() {
    let mut config = settings();
    config.bitrate = " 28 -tune  film ".to_string();
    let args = output_args(&config, NONE, Encoder::Libx265, "slow", "3.5");
    assert_eq!(
        args,
        strings(&[
            "-c:a", "copy", "-c:v", "libx265", "-pix_fmt", "yuv420p", "-crf", "28", "-tune", "film",
            "-preset", "slow", "-map", "0:v:0", "-map", "1:a:0", "-ss", "0.1", "-vf", "vflip", "-f",
            "mov",
        ])
    );
    config.bitrate = String::new();
    let args = output_args(&config, NONE, Encoder::Libx265, "slow", "3.5");
    assert_eq!(args[7], "-preset");
}
