//! The command lines of the two ffmpeg runs: one that stores the mixed track, one that encodes
//! the video.

use vstd::prelude::*;

use crate::config::RenderConfig;
use crate::encoder::{available, law_preset_is_one_word, Encoder, Hardware};
use crate::error::RenderError;
use crate::mixer::SAMPLE_RATE;
use crate::text::{
    append_decimal, contents, decimal, law_decimal_is_solid, law_words_of_join, law_words_of_solid,
    solid, split_whitespace, white_space, words,
};

verus! {

/// The command line that stores the mixed track, up to the file it goes to.
pub open spec fn mixing_text() -> Seq<char> {
    "-y -f f32le -ar "@ + decimal(SAMPLE_RATE as nat) + " -ac 2 -i - -c:a pcm_f32le -f wav"@
}

/// The options that say where playback starts: after the loading screen, which ends at
/// `lead_in` seconds, where that screen is left out.
pub open spec fn seek_text(disable_loading: bool, lead_in: Seq<char>) -> Seq<char> {
    if disable_loading {
        "-ss "@ + lead_in
    } else {
        "-ss 0.1"@
    }
}

/// The command line of the encoder, up to the file with the track.
pub open spec fn input_text(resolution: (u32, u32), fps: u32, hardware: Hardware) -> Seq<char> {
    "-y -f rawvideo -c:v rawvideo"@ + hardware.device_options() + " -s "@ + decimal(
        resolution.0 as nat,
    ) + "x"@ + decimal(resolution.1 as nat) + " -r "@ + decimal(fps as nat)
        + " -pix_fmt rgba -i - -i"@
}

/// The command line of the encoder between the file with the track and the output file.
pub open spec fn output_text(
    encoder: Seq<char>,
    rate_option: Seq<char>,
    bitrate: Seq<char>,
    preset_option: Seq<char>,
    preset: Seq<char>,
    seek: Seq<char>,
) -> Seq<char> {
    "-c:a copy -c:v "@ + encoder + " -pix_fmt yuv420p "@ + rate_option + " "@ + bitrate + " "@
        + preset_option + " "@ + preset + " -map 0:v:0 -map 1:a:0 "@ + seek
        + " -vf vflip -f mov"@
}

/// The arguments that store the mixed track, up to the file it goes to.
pub fn mixing_args() -> (args: Vec<String>)
    ensures
        contents(args@) == words(mixing_text()),
        contents(args@) == seq![
            "-y"@,
            "-f"@,
            "f32le"@,
            "-ar"@,
            "96000"@,
            "-ac"@,
            "2"@,
            "-i"@,
            "-"@,
            "-c:a"@,
            "pcm_f32le"@,
            "-f"@,
            "wav"@,
        ],
{
    proof {
        law_mixing_words();
    }
    let mut line = "-y -f f32le -ar ".to_owned();
    append_decimal(&mut line, SAMPLE_RATE);
    line.append(" -ac 2 -i - -c:a pcm_f32le -f wav");
    assert(line@ == mixing_text());
    split_whitespace(line.as_str())
}

/// The arguments of the encoder, up to the file with the track.
pub fn input_args(resolution: (u32, u32), fps: u32, hardware: Hardware) -> (args: Vec<String>)
    ensures
        contents(args@) == words(input_text(resolution, fps, hardware)),
        contents(args@) == seq!["-y"@, "-f"@, "rawvideo"@, "-c:v"@, "rawvideo"@] + words(
            hardware.device_options(),
        ) + seq![
            "-s"@,
            decimal(resolution.0 as nat) + "x"@ + decimal(resolution.1 as nat),
            "-r"@,
            decimal(fps as nat),
            "-pix_fmt"@,
            "rgba"@,
            "-i"@,
            "-"@,
            "-i"@,
        ],
{
    proof {
        law_input_words(resolution, fps, hardware);
    }
    let mut line = "-y -f rawvideo -c:v rawvideo".to_owned();
    line.append(hardware.device_flags());
    line.append(" -s ");
    append_decimal(&mut line, resolution.0);
    line.append("x");
    append_decimal(&mut line, resolution.1);
    line.append(" -r ");
    append_decimal(&mut line, fps);
    line.append(" -pix_fmt rgba -i - -i");
    assert(line@ == input_text(resolution, fps, hardware));
    split_whitespace(line.as_str())
}

/// The arguments of the encoder between the file with the track and the output file.
pub fn output_args(
    config: &RenderConfig,
    hardware: Hardware,
    encoder: Encoder,
    preset: &str,
    lead_in: &str,
) -> (args: Vec<String>)
    ensures
        contents(args@) == words(
            output_text(
                encoder.spelling(),
                hardware.rate_option(config.bitrate_control@),
                config.bitrate@,
                hardware.preset_option(),
                preset@,
                seek_text(config.disable_loading, lead_in@),
            ),
        ),
        contents(args@) == seq![
            "-c:a"@,
            "copy"@,
            "-c:v"@,
            encoder.spelling(),
            "-pix_fmt"@,
            "yuv420p"@,
            hardware.rate_option(config.bitrate_control@),
        ] + words(config.bitrate@) + seq![hardware.preset_option()] + words(preset@) + seq![
            "-map"@,
            "0:v:0"@,
            "-map"@,
            "1:a:0"@,
            "-ss"@,
        ] + (if config.disable_loading {
            words(lead_in@)
        } else {
            seq!["0.1"@]
        }) + seq!["-vf"@, "vflip"@, "-f"@, "mov"@],
{
    proof {
        law_output_words(
            hardware,
            encoder,
            config.bitrate_control@,
            config.bitrate@,
            preset@,
            config.disable_loading,
            lead_in@,
        );
    }
    let mut seek = String::new();
    if config.disable_loading {
        seek.append("-ss ");
        seek.append(lead_in);
    } else {
        seek.append("-ss 0.1");
    }
    assert(seek@ == seek_text(config.disable_loading, lead_in@));
    let mut line = "-c:a copy -c:v ".to_owned();
    line.append(encoder.name());
    line.append(" -pix_fmt yuv420p ");
    line.append(hardware.rate_flag(config.bitrate_control.as_str()));
    line.append(" ");
    line.append(config.bitrate.as_str());
    line.append(" ");
    line.append(hardware.preset_flag());
    line.append(" ");
    line.append(preset);
    line.append(" -map 0:v:0 -map 1:a:0 ");
    line.append(seek.as_str());
    line.append(" -vf vflip -f mov");
    split_whitespace(line.as_str())
}

/// The arguments of the encoder around the file with the track.
#[derive(Debug)]
pub struct EncodePlan {
    pub encoder: Encoder,
    /// Up to the file with the track.
    pub input: Vec<String>,
    /// From there to the output file.
    pub output: Vec<String>,
}

/// Plans the encoder run from the settings, the codec listing of ffmpeg and the length of the
/// loading screen in seconds. A render whose list of preset names is too short for the hardware
/// has no plan.
pub fn encode_plan(config: &RenderConfig, listing: &str, lead_in: &str) -> (plan: Result<
    EncodePlan,
    RenderError,
>)
    requires
        ({
            let hardware = available(config.hardware_accel, listing@);
            config.hardware_accel && !hardware.any_hevc() || hardware.preset(
                config.ffmpeg_preset@,
            ) is Some
        }),
    ensures
        ({
            let hardware = available(config.hardware_accel, listing@);
            match plan {
                Ok(plan) => {
                    &&& !config.hardware_accel || hardware.any_hevc()
                    &&& plan.encoder == hardware.preferred(config.hevc)
                    &&& contents(plan.input@) == words(
                        input_text(config.resolution, config.fps, hardware),
                    )
                    &&& contents(plan.output@) == words(
                        output_text(
                            plan.encoder.spelling(),
                            hardware.rate_option(config.bitrate_control@),
                            config.bitrate@,
                            hardware.preset_option(),
                            hardware.preset(config.ffmpeg_preset@)->0,
                            seek_text(config.disable_loading, lead_in@),
                        ),
                    )
                    &&& hardware.chooses(config.hevc, plan.encoder)
                    &&& contents(plan.input@) == seq![
                        "-y"@,
                        "-f"@,
                        "rawvideo"@,
                        "-c:v"@,
                        "rawvideo"@,
                    ] + words(hardware.device_options()) + seq![
                        "-s"@,
                        decimal(config.resolution.0 as nat) + "x"@ + decimal(
                            config.resolution.1 as nat,
                        ),
                        "-r"@,
                        decimal(config.fps as nat),
                        "-pix_fmt"@,
                        "rgba"@,
                        "-i"@,
                        "-"@,
                        "-i"@,
                    ]
                    &&& contents(plan.output@) == seq![
                        "-c:a"@,
                        "copy"@,
                        "-c:v"@,
                        plan.encoder.spelling(),
                        "-pix_fmt"@,
                        "yuv420p"@,
                        hardware.rate_option(config.bitrate_control@),
                    ] + words(config.bitrate@) + seq![
                        hardware.preset_option(),
                        hardware.preset(config.ffmpeg_preset@)->0,
                        "-map"@,
                        "0:v:0"@,
                        "-map"@,
                        "1:a:0"@,
                        "-ss"@,
                    ] + (if config.disable_loading {
                        words(lead_in@)
                    } else {
                        seq!["0.1"@]
                    }) + seq!["-vf"@, "vflip"@, "-f"@, "mov"@]
                },
                Err(error) => {
                    &&& config.hardware_accel && !hardware.any_hevc()
                    &&& error == RenderError::NoHardwareEncoder
                },
            }
        }),
{
    let hardware = Hardware::detect(config.hardware_accel, listing);
    let encoder = match hardware.select(config.hardware_accel, config.hevc) {
        Ok(encoder) => encoder,
        Err(error) => {
            return Err(error);
        },
    };
    let preset = hardware.preset_name(config.ffmpeg_preset.as_str()).unwrap();
    proof {
        law_preset_is_one_word(hardware, config.ffmpeg_preset@);
    }
    Ok(
        EncodePlan {
            encoder,
            input: input_args(config.resolution, config.fps, hardware),
            output: output_args(config, hardware, encoder, preset.as_str(), lead_in),
        },
    )
}

/// The given words, each followed by one space.
spec fn spaced(list: Seq<Seq<char>>) -> Seq<char>
    decreases list.len(),
{
    if list.len() == 0 {
        Seq::empty()
    } else {
        list[0] + seq![' '] + spaced(list.drop_first())
    }
}

/// Every entry can stand as one word.
spec fn all_words(list: Seq<Seq<char>>) -> bool {
    forall|i: int| 0 <= i < list.len() ==> (#[trigger] list[i]).len() > 0 && solid(list[i])
}

/// Spaced words are read back as they are, whatever text follows.
proof fn lemma_spaced(list: Seq<Seq<char>>, rest: Seq<char>)
    requires
        all_words(list),
    ensures
        words(spaced(list) + rest) == list + words(rest),
    decreases list.len(),
{
    if list.len() == 0 {
        assert(spaced(list) + rest == rest);
        assert(list + words(rest) == words(rest));
    } else {
        let head = list[0];
        let tail = list.drop_first();
        assert(all_words(tail)) by {
            assert forall|i: int| 0 <= i < tail.len() implies (#[trigger] tail[i]).len() > 0
                && solid(tail[i]) by {
                assert(tail[i] == list[i + 1]);
            }
        }
        lemma_spaced(tail, rest);
        let after = spaced(tail) + rest;
        assert(spaced(list) + rest == head + (seq![' '] + after));
        assert((seq![' '] + after).drop_first() == after);
        law_words_of_join(head, seq![' '] + after);
        law_words_of_solid(head);
        assert(words(seq![' '] + after) == words(after));
        assert(seq![head] + (tail + words(rest)) == list + words(rest));
    }
}

/// The arguments that store the mixed track are these thirteen.
pub proof fn law_mixing_words()
    ensures
        words(mixing_text()) == seq![
            "-y"@,
            "-f"@,
            "f32le"@,
            "-ar"@,
            "96000"@,
            "-ac"@,
            "2"@,
            "-i"@,
            "-"@,
            "-c:a"@,
            "pcm_f32le"@,
            "-f"@,
            "wav"@,
        ],
{
    reveal_strlit("-y -f f32le -ar ");
    reveal_strlit(" -ac 2 -i - -c:a pcm_f32le -f wav");
    reveal_strlit("-y");
    reveal_strlit("-f");
    reveal_strlit("f32le");
    reveal_strlit("-ar");
    reveal_strlit("96000");
    reveal_strlit("-ac");
    reveal_strlit("2");
    reveal_strlit("-i");
    reveal_strlit("-");
    reveal_strlit("-c:a");
    reveal_strlit("pcm_f32le");
    reveal_strlit("wav");
    assert(decimal(96000) == "96000"@) by {
        reveal_with_fuel(decimal, 6);
    }
    let list = seq![
        "-y"@,
        "-f"@,
        "f32le"@,
        "-ar"@,
        "96000"@,
        "-ac"@,
        "2"@,
        "-i"@,
        "-"@,
        "-c:a"@,
        "pcm_f32le"@,
        "-f"@,
    ];
    assert(spaced(list) + "wav"@ == mixing_text()) by {
        reveal_with_fuel(spaced, 14);
    }
    lemma_spaced(list, "wav"@);
    law_words_of_solid("wav"@);
}

/// A space keeps two texts apart.
proof fn lemma_space_between(left: Seq<char>, right: Seq<char>)
    ensures
        words(left + (seq![' '] + right)) == words(left) + words(right),
{
    law_words_of_join(left, seq![' '] + right);
    assert((seq![' '] + right).drop_first() == right);
    assert(words(seq![' '] + right) == words(right));
}

/// The names and options that a choice of hardware brings are single words.
proof fn lemma_options_are_words(hardware: Hardware, encoder: Encoder, control: Seq<char>)
    ensures
        encoder.spelling().len() > 0,
        solid(encoder.spelling()),
        hardware.preset_option().len() > 0,
        solid(hardware.preset_option()),
        hardware.rate_option(control).len() > 0,
        solid(hardware.rate_option(control)),
{
    reveal_strlit("hevc_nvenc");
    reveal_strlit("h264_nvenc");
    reveal_strlit("hevc_qsv");
    reveal_strlit("h264_qsv");
    reveal_strlit("hevc_amf");
    reveal_strlit("h264_amf");
    reveal_strlit("libx265");
    reveal_strlit("libx264");
    reveal_strlit("-quality");
    reveal_strlit("-preset");
    reveal_strlit("-cq");
    reveal_strlit("-q");
    reveal_strlit("-qp_p");
    reveal_strlit("-crf");
    reveal_strlit("-b:v");
}

/// The words that say where playback starts.
pub open spec fn seek_words(disable_loading: bool, lead_in: Seq<char>) -> Seq<Seq<char>> {
    seq!["-ss"@] + if disable_loading {
        words(lead_in)
    } else {
        seq!["0.1"@]
    }
}

/// The words of the seek options.
pub proof fn law_seek_words(disable_loading: bool, lead_in: Seq<char>)
    ensures
        words(seek_text(disable_loading, lead_in)) == seek_words(disable_loading, lead_in),
        disable_loading ==> words(seek_text(disable_loading, lead_in)) == seq!["-ss"@] + words(
            lead_in,
        ),
        !disable_loading ==> words(seek_text(disable_loading, lead_in)) == seq!["-ss"@, "0.1"@],
{
    reveal_strlit("-ss ");
    reveal_strlit("-ss");
    reveal_strlit("-ss 0.1");
    reveal_strlit("0.1");
    let list = seq!["-ss"@];
    assert(spaced(list) == "-ss "@) by {
        reveal_with_fuel(spaced, 2);
    }
    if disable_loading {
        lemma_spaced(list, lead_in);
    } else {
        assert("-ss 0.1"@ == spaced(list) + "0.1"@);
        lemma_spaced(list, "0.1"@);
        law_words_of_solid("0.1"@);
    }
}

/// The arguments of the encoder after the file with the track. Only the bitrate setting, the
/// preset and the length of the loading screen can bring more or fewer words than one.
pub proof fn law_output_words(
    hardware: Hardware,
    encoder: Encoder,
    control: Seq<char>,
    bitrate: Seq<char>,
    preset: Seq<char>,
    disable_loading: bool,
    lead_in: Seq<char>,
)
    ensures
        words(
            output_text(
                encoder.spelling(),
                hardware.rate_option(control),
                bitrate,
                hardware.preset_option(),
                preset,
                seek_text(disable_loading, lead_in),
            ),
        ) == seq![
            "-c:a"@,
            "copy"@,
            "-c:v"@,
            encoder.spelling(),
            "-pix_fmt"@,
            "yuv420p"@,
            hardware.rate_option(control),
        ] + words(bitrate) + seq![hardware.preset_option()] + words(preset) + seq![
            "-map"@,
            "0:v:0"@,
            "-map"@,
            "1:a:0"@,
            "-ss"@,
        ] + (if disable_loading {
            words(lead_in)
        } else {
            seq!["0.1"@]
        }) + seq!["-vf"@, "vflip"@, "-f"@, "mov"@],
{
    reveal_strlit("-c:a copy -c:v ");
    reveal_strlit(" -pix_fmt yuv420p ");
    reveal_strlit(" ");
    reveal_strlit(" -map 0:v:0 -map 1:a:0 ");
    reveal_strlit(" -vf vflip -f mov");
    reveal_strlit("-c:a");
    reveal_strlit("copy");
    reveal_strlit("-c:v");
    reveal_strlit("-pix_fmt");
    reveal_strlit("yuv420p");
    reveal_strlit("-map");
    reveal_strlit("0:v:0");
    reveal_strlit("1:a:0");
    reveal_strlit("-vf");
    reveal_strlit("vflip");
    reveal_strlit("-f");
    reveal_strlit("mov");
    lemma_options_are_words(hardware, encoder, control);
    law_seek_words(disable_loading, lead_in);
    let name = encoder.spelling();
    let rate = hardware.rate_option(control);
    let option = hardware.preset_option();
    let seek = seek_text(disable_loading, lead_in);
    let space = seq![' '];

    let head = seq!["-c:a"@, "copy"@, "-c:v"@, name, "-pix_fmt"@, "yuv420p"@, rate];
    let middle = seq!["-map"@, "0:v:0"@, "-map"@, "1:a:0"@];
    let ending = seq!["-vf"@, "vflip"@, "-f"@];
    let last = spaced(ending) + "mov"@;
    let from_seek = seek + (space + last);
    let from_map = spaced(middle) + from_seek;
    let from_preset = preset + (space + from_map);
    let from_option = spaced(seq![option]) + from_preset;
    let from_bitrate = bitrate + (space + from_option);

    assert(spaced(head) == "-c:a copy -c:v "@ + name + " -pix_fmt yuv420p "@ + rate + " "@) by {
        reveal_with_fuel(spaced, 8);
    }
    assert(space + spaced(middle) == " -map 0:v:0 -map 1:a:0 "@) by {
        reveal_with_fuel(spaced, 5);
    }
    assert(space + last == " -vf vflip -f mov"@) by {
        reveal_with_fuel(spaced, 4);
    }
    assert(spaced(seq![option]) == option + " "@) by {
        reveal_with_fuel(spaced, 2);
    }
    assert(output_text(name, rate, bitrate, option, preset, seek) == spaced(head) + from_bitrate);

    lemma_spaced(head, from_bitrate);
    lemma_space_between(bitrate, from_option);
    lemma_spaced(seq![option], from_preset);
    lemma_space_between(preset, from_map);
    lemma_spaced(middle, from_seek);
    lemma_space_between(seek, last);
    lemma_spaced(ending, "mov"@);
    law_words_of_solid("mov"@);
}

/// A picture size is one word.
proof fn lemma_size_is_a_word(width: nat, height: nat)
    ensures
        (decimal(width) + "x"@ + decimal(height)).len() > 0,
        solid(decimal(width) + "x"@ + decimal(height)),
{
    reveal_strlit("x");
    law_decimal_is_solid(width);
    law_decimal_is_solid(height);
    let left = decimal(width);
    let right = decimal(height);
    let size = left + "x"@ + right;
    assert forall|i: int| 0 <= i < size.len() implies !white_space(#[trigger] size[i]) by {
        if i < left.len() {
            assert(size[i] == left[i]);
        } else if i > left.len() {
            assert(size[i] == right[i - left.len() - 1]);
        }
    }
}

/// The words from the picture size on.
proof fn lemma_picture_words(size: Seq<char>, rate: Seq<char>)
    requires
        size.len() > 0,
        solid(size),
        rate.len() > 0,
        solid(rate),
    ensures
        words(" -s "@ + size + " -r "@ + rate + " -pix_fmt rgba -i - -i"@) == seq![
            "-s"@,
            size,
            "-r"@,
            rate,
            "-pix_fmt"@,
            "rgba"@,
            "-i"@,
            "-"@,
            "-i"@,
        ],
{
    reveal_strlit(" -s ");
    reveal_strlit(" -r ");
    reveal_strlit(" -pix_fmt rgba -i - -i");
    reveal_strlit("-s");
    reveal_strlit("-r");
    reveal_strlit("-pix_fmt");
    reveal_strlit("rgba");
    reveal_strlit("-i");
    reveal_strlit("-");
    let list = seq!["-s"@, size, "-r"@, rate, "-pix_fmt"@, "rgba"@, "-i"@, "-"@];
    let text = spaced(list) + "-i"@;
    assert(seq![' '] + text == " -s "@ + size + " -r "@ + rate + " -pix_fmt rgba -i - -i"@) by {
        reveal_with_fuel(spaced, 9);
    }
    lemma_space_between(Seq::empty(), text);
    assert(Seq::<char>::empty() + (seq![' '] + text) == seq![' '] + text);
    lemma_spaced(list, "-i"@);
    law_words_of_solid("-i"@);
}

/// The arguments of the encoder before the file with the track.
pub proof fn law_input_words(resolution: (u32, u32), fps: u32, hardware: Hardware)
    ensures
        words(input_text(resolution, fps, hardware)) == seq![
            "-y"@,
            "-f"@,
            "rawvideo"@,
            "-c:v"@,
            "rawvideo"@,
        ] + words(hardware.device_options()) + seq![
            "-s"@,
            decimal(resolution.0 as nat) + "x"@ + decimal(resolution.1 as nat),
            "-r"@,
            decimal(fps as nat),
            "-pix_fmt"@,
            "rgba"@,
            "-i"@,
            "-"@,
            "-i"@,
        ],
{
    let size = decimal(resolution.0 as nat) + "x"@ + decimal(resolution.1 as nat);
    let rate = decimal(fps as nat);
    let device = hardware.device_options();
    let start = "-y -f rawvideo -c:v rawvideo"@;
    let picture = " -s "@ + size + " -r "@ + rate + " -pix_fmt rgba -i - -i"@;
    lemma_size_is_a_word(resolution.0 as nat, resolution.1 as nat);
    law_decimal_is_solid(fps as nat);
    lemma_picture_words(size, rate);
    assert(input_text(resolution, fps, hardware) == start + (device + picture));
    assert(picture[0] == ' ') by {
        reveal_strlit(" -s ");
    }
    law_words_of_join(device, picture);
    lemma_device_options(hardware);
    law_words_of_join(start, device + picture);
    lemma_raw_input_words();
}

/// Options that concern the device, where there are any, start with a space.
proof fn lemma_device_options(hardware: Hardware)
    ensures
        hardware.device_options().len() == 0 || hardware.device_options()[0] == ' ',
{
    reveal_strlit(" -hwaccel_output_format cuda");
    reveal_strlit(" -hwaccel_output_format qsv");
    reveal_strlit(" -hwaccel_output_format d3d11va");
    reveal_strlit("");
}

/// The words that announce raw pictures.
proof fn lemma_raw_input_words()
    ensures
        words("-y -f rawvideo -c:v rawvideo"@) == seq![
            "-y"@,
            "-f"@,
            "rawvideo"@,
            "-c:v"@,
            "rawvideo"@,
        ],
{
    reveal_strlit("-y -f rawvideo -c:v rawvideo");
    reveal_strlit("-y");
    reveal_strlit("-f");
    reveal_strlit("rawvideo");
    reveal_strlit("-c:v");
    let list = seq!["-y"@, "-f"@, "rawvideo"@, "-c:v"@];
    assert(spaced(list) + "rawvideo"@ == "-y -f rawvideo -c:v rawvideo"@) by {
        reveal_with_fuel(spaced, 5);
    }
    lemma_spaced(list, "rawvideo"@);
    law_words_of_solid("rawvideo"@);
}

/// The words of the options that concern the device: none, or two.
pub proof fn law_device_words(hardware: Hardware)
    ensures
        words(hardware.device_options()) == (if hardware.cuda {
            seq!["-hwaccel_output_format"@, "cuda"@]
        } else if hardware.qsv {
            seq!["-hwaccel_output_format"@, "qsv"@]
        } else if hardware.amf {
            seq!["-hwaccel_output_format"@, "d3d11va"@]
        } else {
            Seq::empty()
        }),
{
    reveal_strlit(" -hwaccel_output_format cuda");
    reveal_strlit(" -hwaccel_output_format qsv");
    reveal_strlit(" -hwaccel_output_format d3d11va");
    reveal_strlit("");
    reveal_strlit("-hwaccel_output_format");
    reveal_strlit("cuda");
    reveal_strlit("qsv");
    reveal_strlit("d3d11va");
    let device = if hardware.cuda {
        "cuda"@
    } else if hardware.qsv {
        "qsv"@
    } else {
        "d3d11va"@
    };
    if hardware.cuda || hardware.qsv || hardware.amf {
        let option = "-hwaccel_output_format"@;
        let text = option + (seq![' '] + device);
        assert(hardware.device_options() == Seq::<char>::empty() + (seq![' '] + text));
        lemma_space_between(Seq::empty(), text);
        lemma_space_between(option, device);
        law_words_of_solid(option);
        law_words_of_solid(device);
    } else {
        assert(hardware.device_options().len() == 0);
    }
}

} // verus!
