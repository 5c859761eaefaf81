//! Choice of the video encoder from the codecs that ffmpeg lists.

use vstd::prelude::*;
use vstd::utf8::{decode_utf8, valid_utf8};

use crate::error::RenderError;
use crate::text::{
    contains, contents, law_words_are_solid, law_words_of_solid, occurs, same_text,
    split_whitespace, words,
};

verus! {

/// The encoders that a render can use.
#[derive(Clone, Copy, PartialEq, Eq, Structural, Debug)]
pub enum Encoder {
    HevcNvenc,
    H264Nvenc,
    HevcQsv,
    H264Qsv,
    HevcAmf,
    H264Amf,
    Libx265,
    Libx264,
}

impl Encoder {
    /// The name of an encoder on the command line of ffmpeg.
    pub open spec fn spelling(self) -> Seq<char> {
        match self {
            Encoder::HevcNvenc => "hevc_nvenc"@,
            Encoder::H264Nvenc => "h264_nvenc"@,
            Encoder::HevcQsv => "hevc_qsv"@,
            Encoder::H264Qsv => "h264_qsv"@,
            Encoder::HevcAmf => "hevc_amf"@,
            Encoder::H264Amf => "h264_amf"@,
            Encoder::Libx265 => "libx265"@,
            Encoder::Libx264 => "libx264"@,
        }
    }

    /// An encoder that runs on the processor.
    pub open spec fn software(self) -> bool {
        self is Libx265 || self is Libx264
    }

    /// Gives the name of the encoder on the command line of ffmpeg.
    pub fn name(self) -> (name: &'static str)
        ensures
            name@ == self.spelling(),
    {
        match self {
            Encoder::HevcNvenc => "hevc_nvenc",
            Encoder::H264Nvenc => "h264_nvenc",
            Encoder::HevcQsv => "hevc_qsv",
            Encoder::H264Qsv => "h264_qsv",
            Encoder::HevcAmf => "hevc_amf",
            Encoder::H264Amf => "h264_amf",
            Encoder::Libx265 => "libx265",
            Encoder::Libx264 => "libx264",
        }
    }
}

/// The hardware encoders that a render may use.
#[derive(Clone, Copy, PartialEq, Eq, Structural, Debug)]
pub struct Hardware {
    pub cuda: bool,
    pub qsv: bool,
    pub amf: bool,
    pub cuda_hevc: bool,
    pub qsv_hevc: bool,
    pub amf_hevc: bool,
}

/// The hardware encoders that may be used: those whose names stand in the listing, if hardware
/// acceleration is asked for, and none otherwise.
pub open spec fn available(hardware_accel: bool, listing: Seq<char>) -> Hardware {
    Hardware {
        cuda: hardware_accel && occurs(listing, Encoder::H264Nvenc.spelling()),
        qsv: hardware_accel && occurs(listing, Encoder::H264Qsv.spelling()),
        amf: hardware_accel && occurs(listing, Encoder::H264Amf.spelling()),
        cuda_hevc: hardware_accel && occurs(listing, Encoder::HevcNvenc.spelling()),
        qsv_hevc: hardware_accel && occurs(listing, Encoder::HevcQsv.spelling()),
        amf_hevc: hardware_accel && occurs(listing, Encoder::HevcAmf.spelling()),
    }
}

impl Hardware {
    /// Some hardware HEVC encoder may be used.
    pub open spec fn any_hevc(self) -> bool {
        self.cuda_hevc || self.qsv_hevc || self.amf_hevc
    }

    /// The encoder that is preferred: NVENC before Quick Sync before AMF, HEVC before H.264
    /// within each, and a software encoder last.
    pub open spec fn preferred(self, hevc: bool) -> Encoder {
        if self.cuda_hevc {
            Encoder::HevcNvenc
        } else if self.cuda {
            Encoder::H264Nvenc
        } else if self.qsv_hevc {
            Encoder::HevcQsv
        } else if self.qsv {
            Encoder::H264Qsv
        } else if self.amf_hevc {
            Encoder::HevcAmf
        } else if self.amf {
            Encoder::H264Amf
        } else if hevc {
            Encoder::Libx265
        } else {
            Encoder::Libx264
        }
    }

    /// `encoder` may be used, and none that stands before it in the order of preference may.
    pub open spec fn chooses(self, hevc: bool, encoder: Encoder) -> bool {
        let software = !self.cuda_hevc && !self.cuda && !self.qsv_hevc && !self.qsv
            && !self.amf_hevc && !self.amf;
        match encoder {
            Encoder::HevcNvenc => self.cuda_hevc,
            Encoder::H264Nvenc => self.cuda && !self.cuda_hevc,
            Encoder::HevcQsv => self.qsv_hevc && !self.cuda_hevc && !self.cuda,
            Encoder::H264Qsv => self.qsv && !self.cuda_hevc && !self.cuda && !self.qsv_hevc,
            Encoder::HevcAmf => self.amf_hevc && !self.cuda_hevc && !self.cuda && !self.qsv_hevc
                && !self.qsv,
            Encoder::H264Amf => self.amf && !self.cuda_hevc && !self.cuda && !self.qsv_hevc
                && !self.qsv && !self.amf_hevc,
            Encoder::Libx265 => hevc && software,
            Encoder::Libx264 => !hevc && software,
        }
    }

    /// The position of the preset name for this hardware in the list of preset names.
    pub open spec fn preset_index(self) -> int {
        if self.cuda {
            1
        } else if self.qsv {
            0
        } else if self.amf {
            2
        } else {
            0
        }
    }

    /// The preset name for this hardware, if the list of preset names is long enough.
    pub open spec fn preset(self, names: Seq<char>) -> Option<Seq<char>> {
        if self.preset_index() < words(names).len() {
            Some(words(names)[self.preset_index()])
        } else {
            None
        }
    }

    /// The option that a preset name follows.
    pub open spec fn preset_option(self) -> Seq<char> {
        if self.amf {
            "-quality"@
        } else {
            "-preset"@
        }
    }

    /// The options that keep decoded pictures on the device, with a space in front.
    pub open spec fn device_options(self) -> Seq<char> {
        if self.cuda {
            " -hwaccel_output_format cuda"@
        } else if self.qsv {
            " -hwaccel_output_format qsv"@
        } else if self.amf {
            " -hwaccel_output_format d3d11va"@
        } else {
            ""@
        }
    }

    /// The option that the bitrate setting follows: a quality under the control `CRF`, a
    /// bitrate under any other.
    pub open spec fn rate_option(self, bitrate_control: Seq<char>) -> Seq<char> {
        if bitrate_control == "CRF"@ {
            if self.cuda {
                "-cq"@
            } else if self.qsv {
                "-q"@
            } else if self.amf {
                "-qp_p"@
            } else {
                "-crf"@
            }
        } else {
            "-b:v"@
        }
    }

    /// Looks for the hardware encoders in a codec listing.
    pub fn detect(hardware_accel: bool, listing: &str) -> (hardware: Hardware)
        ensures
            hardware == available(hardware_accel, listing@),
            hardware.cuda == (hardware_accel && occurs(listing@, "h264_nvenc"@)),
            hardware.qsv == (hardware_accel && occurs(listing@, "h264_qsv"@)),
            hardware.amf == (hardware_accel && occurs(listing@, "h264_amf"@)),
            hardware.cuda_hevc == (hardware_accel && occurs(listing@, "hevc_nvenc"@)),
            hardware.qsv_hevc == (hardware_accel && occurs(listing@, "hevc_qsv"@)),
            hardware.amf_hevc == (hardware_accel && occurs(listing@, "hevc_amf"@)),
    {
        Hardware {
            cuda: hardware_accel && contains(listing, "h264_nvenc"),
            qsv: hardware_accel && contains(listing, "h264_qsv"),
            amf: hardware_accel && contains(listing, "h264_amf"),
            cuda_hevc: hardware_accel && contains(listing, "hevc_nvenc"),
            qsv_hevc: hardware_accel && contains(listing, "hevc_qsv"),
            amf_hevc: hardware_accel && contains(listing, "hevc_amf"),
        }
    }

    /// Picks the preferred encoder. Asking for hardware acceleration where no hardware HEVC
    /// encoder may be used is refused.
    pub fn select(self, hardware_accel: bool, hevc: bool) -> (encoder: Result<Encoder, RenderError>)
        ensures
            encoder == (if hardware_accel && !self.any_hevc() {
                Err::<Encoder, RenderError>(RenderError::NoHardwareEncoder)
            } else {
                Ok::<Encoder, RenderError>(self.preferred(hevc))
            }),
            encoder is Err <==> hardware_accel && !self.cuda_hevc && !self.qsv_hevc
                && !self.amf_hevc,
            encoder matches Err(error) ==> error is NoHardwareEncoder,
            encoder matches Ok(chosen) ==> self.chooses(hevc, chosen),
    {
        if hardware_accel && !self.cuda_hevc && !self.qsv_hevc && !self.amf_hevc {
            return Err(RenderError::NoHardwareEncoder);
        }
        Ok(
            if self.cuda_hevc {
                Encoder::HevcNvenc
            } else if self.cuda {
                Encoder::H264Nvenc
            } else if self.qsv_hevc {
                Encoder::HevcQsv
            } else if self.qsv {
                Encoder::H264Qsv
            } else if self.amf_hevc {
                Encoder::HevcAmf
            } else if self.amf {
                Encoder::H264Amf
            } else if hevc {
                Encoder::Libx265
            } else {
                Encoder::Libx264
            },
        )
    }

    /// Picks the preset name for this hardware out of a list separated by white space.
    pub fn preset_name(self, names: &str) -> (name: Option<String>)
        ensures
            match name {
                Some(text) => self.preset(names@) == Some(text@),
                None => self.preset(names@) is None,
            },
            name is Some <==> words(names@).len() > (if self.cuda {
                1int
            } else if self.amf && !self.qsv {
                2
            } else {
                0
            }),
            name matches Some(text) ==> {
                &&& self.cuda ==> text@ == words(names@)[1]
                &&& !self.cuda && self.qsv ==> text@ == words(names@)[0]
                &&& !self.cuda && !self.qsv && self.amf ==> text@ == words(names@)[2]
                &&& !self.cuda && !self.qsv && !self.amf ==> text@ == words(names@)[0]
            },
    {
        let list = split_whitespace(names);
        let index: usize = if self.cuda {
            1
        } else if self.qsv {
            0
        } else if self.amf {
            2
        } else {
            0
        };
        assert(contents(list@).len() == list@.len());
        if index < list.len() {
            assert(contents(list@)[index as int] == list@[index as int]@);
            Some(list[index].clone())
        } else {
            None
        }
    }

    /// Picks the option that a preset name follows.
    pub fn preset_flag(self) -> (option: &'static str)
        ensures
            option@ == self.preset_option(),
            self.amf ==> option@ == "-quality"@,
            !self.amf ==> option@ == "-preset"@,
    {
        if self.amf {
            "-quality"
        } else {
            "-preset"
        }
    }

    /// Picks the options that keep decoded pictures on the device, with a space in front.
    pub fn device_flags(self) -> (options: &'static str)
        ensures
            options@ == self.device_options(),
            self.cuda ==> options@ == " -hwaccel_output_format cuda"@,
            !self.cuda && self.qsv ==> options@ == " -hwaccel_output_format qsv"@,
            !self.cuda && !self.qsv && self.amf ==> options@ == " -hwaccel_output_format d3d11va"@,
            !self.cuda && !self.qsv && !self.amf ==> options@ == ""@,
    {
        if self.cuda {
            " -hwaccel_output_format cuda"
        } else if self.qsv {
            " -hwaccel_output_format qsv"
        } else if self.amf {
            " -hwaccel_output_format d3d11va"
        } else {
            ""
        }
    }

    /// Picks the option that the bitrate setting follows.
    pub fn rate_flag(self, bitrate_control: &str) -> (option: &'static str)
        ensures
            option@ == self.rate_option(bitrate_control@),
            bitrate_control@ != "CRF"@ ==> option@ == "-b:v"@,
            bitrate_control@ == "CRF"@ && self.cuda ==> option@ == "-cq"@,
            bitrate_control@ == "CRF"@ && !self.cuda && self.qsv ==> option@ == "-q"@,
            bitrate_control@ == "CRF"@ && !self.cuda && !self.qsv && self.amf ==> option@
                == "-qp_p"@,
            bitrate_control@ == "CRF"@ && !self.cuda && !self.qsv && !self.amf ==> option@
                == "-crf"@,
    {
        if same_text(bitrate_control, "CRF") {
            if self.cuda {
                "-cq"
            } else if self.qsv {
                "-q"
            } else if self.amf {
                "-qp_p"
            } else {
                "-crf"
            }
        } else {
            "-b:v"
        }
    }
}

/// `String::from_utf8` decodes UTF-8: it gives the text whose encoding the bytes are, and an
/// error where the bytes are not valid UTF-8.
pub assume_specification[ String::from_utf8 ](bytes: Vec<u8>) -> (text: Result<
    String,
    std::string::FromUtf8Error,
>)
    ensures
        match text {
            Ok(decoded) => valid_utf8(bytes@) && decoded@ == decode_utf8(bytes@),
            Err(_) => !valid_utf8(bytes@),
        },
;

/// Takes the codec listing that was decoded, and refuses the render where decoding failed, with
/// the error of the decoder.
pub fn accept_listing(decoded: Result<String, std::string::FromUtf8Error>) -> (listing: Result<
    String,
    RenderError,
>)
    ensures
        match decoded {
            Ok(text) => listing == Ok::<String, RenderError>(text),
            Err(cause) => listing == Err::<String, RenderError>(
                RenderError::ListingEncoding(cause),
            ),
        },
{
    match decoded {
        Ok(text) => Ok(text),
        Err(cause) => Err(RenderError::ListingEncoding(cause)),
    }
}

/// Reads what ffmpeg printed as its codec listing.
pub fn read_listing(stdout: Vec<u8>) -> (listing: Result<String, RenderError>)
    ensures
        match listing {
            Ok(text) => valid_utf8(stdout@) && text@ == decode_utf8(stdout@),
            Err(error) => !valid_utf8(stdout@) && error is ListingEncoding,
        },
{
    accept_listing(String::from_utf8(stdout))
}

/// Without hardware acceleration a software encoder is chosen and every option is the software
/// one, whatever the listing says.
pub proof fn law_software_without_acceleration(listing: Seq<char>, hevc: bool, control: Seq<char>)
    ensures
        ({
            let hardware = available(false, listing);
            &&& hardware.preferred(hevc) == (if hevc {
                Encoder::Libx265
            } else {
                Encoder::Libx264
            })
            &&& hardware.device_options() == ""@
            &&& hardware.preset_option() == "-preset"@
            &&& hardware.preset_index() == 0
            &&& hardware.rate_option(control) == (if control == "CRF"@ {
                "-crf"@
            } else {
                "-b:v"@
            })
        }),
{
}

/// A hardware encoder is only ever chosen on request, and its name stands in the listing. Where
/// acceleration is asked for and not refused, the choice is a hardware encoder.
pub proof fn law_chosen_encoder_is_listed(hardware_accel: bool, listing: Seq<char>, hevc: bool)
    ensures
        ({
            let hardware = available(hardware_accel, listing);
            let encoder = hardware.preferred(hevc);
            &&& !encoder.software() ==> hardware_accel && occurs(listing, encoder.spelling())
            &&& hardware_accel && hardware.any_hevc() ==> !encoder.software()
        }),
{
}

/// A preset name that is picked out of a list is a single word.
pub proof fn law_preset_is_one_word(hardware: Hardware, names: Seq<char>)
    requires
        hardware.preset(names) is Some,
    ensures
        words(hardware.preset(names)->0) == seq![hardware.preset(names)->0],
{
    law_words_are_solid(names);
    law_words_of_solid(words(names)[hardware.preset_index()]);
}

/// The chosen encoder may be used, and no encoder that stands before it in the order of preference
/// may: NVENC, Quick Sync, AMF, and HEVC before H.264 within each. A software encoder is chosen
/// only where no hardware encoder may be used.
pub proof fn law_first_usable_encoder(hardware: Hardware, hevc: bool)
    ensures
        ({
            let encoder = hardware.preferred(hevc);
            let nvenc = hardware.cuda_hevc || hardware.cuda;
            let qsv = hardware.qsv_hevc || hardware.qsv;
            let amf = hardware.amf_hevc || hardware.amf;
            &&& encoder is HevcNvenc <==> hardware.cuda_hevc
            &&& encoder is H264Nvenc <==> hardware.cuda && !hardware.cuda_hevc
            &&& encoder is HevcQsv <==> hardware.qsv_hevc && !nvenc
            &&& encoder is H264Qsv <==> hardware.qsv && !hardware.qsv_hevc && !nvenc
            &&& encoder is HevcAmf <==> hardware.amf_hevc && !nvenc && !qsv
            &&& encoder is H264Amf <==> hardware.amf && !hardware.amf_hevc && !nvenc && !qsv
            &&& encoder is Libx265 <==> hevc && !nvenc && !qsv && !amf
            &&& encoder is Libx264 <==> !hevc && !nvenc && !qsv && !amf
        }),
{
}

/// Only one encoder is the first that may be used.
pub proof fn law_choice_is_unique(hardware: Hardware, hevc: bool, a: Encoder, b: Encoder)
    requires
        hardware.chooses(hevc, a),
        hardware.chooses(hevc, b),
    ensures
        a == b,
        a == hardware.preferred(hevc),
{
}

/// The HEVC setting has no influence on the choice where a hardware encoder may be used.
pub proof fn law_hevc_setting_is_for_software(hardware: Hardware)
    ensures
        hardware.preferred(true) == hardware.preferred(false) <==> hardware.cuda || hardware.qsv
            || hardware.amf || hardware.cuda_hevc || hardware.qsv_hevc || hardware.amf_hevc,
{
}

/// Under the control `CRF` each vendor gets its own quality option, NVENC before Quick Sync before
/// AMF; under any other control a bitrate is set.
pub proof fn law_rate_option(hardware: Hardware, control: Seq<char>)
    ensures
        control != "CRF"@ ==> hardware.rate_option(control) == "-b:v"@,
        control == "CRF"@ && hardware.cuda ==> hardware.rate_option(control) == "-cq"@,
        control == "CRF"@ && !hardware.cuda && hardware.qsv ==> hardware.rate_option(control)
            == "-q"@,
        control == "CRF"@ && !hardware.cuda && !hardware.qsv && hardware.amf
            ==> hardware.rate_option(control) == "-qp_p"@,
        control == "CRF"@ && !hardware.cuda && !hardware.qsv && !hardware.amf
            ==> hardware.rate_option(control) == "-crf"@,
{
}

/// The quality option, the device and the preset name always belong to the same vendor: the first
/// of NVENC, Quick Sync and AMF whose H.264 encoder may be used. Quick Sync shares its preset name
/// with the software encoders.
pub proof fn law_options_share_a_vendor(hardware: Hardware, names: Seq<char>)
    ensures
        hardware.rate_option("CRF"@) == "-cq"@ <==> hardware.cuda,
        hardware.device_options() == " -hwaccel_output_format cuda"@ <==> hardware.cuda,
        hardware.preset_index() == 1 <==> hardware.cuda,
        hardware.rate_option("CRF"@) == "-q"@ <==> !hardware.cuda && hardware.qsv,
        hardware.device_options() == " -hwaccel_output_format qsv"@ <==> !hardware.cuda
            && hardware.qsv,
        hardware.rate_option("CRF"@) == "-qp_p"@ <==> hardware.amf && !hardware.cuda
            && !hardware.qsv,
        hardware.device_options() == " -hwaccel_output_format d3d11va"@ <==> hardware.amf
            && !hardware.cuda && !hardware.qsv,
        hardware.preset_index() == 2 <==> hardware.amf && !hardware.cuda && !hardware.qsv,
        hardware.rate_option("CRF"@) == "-crf"@ <==> !hardware.cuda && !hardware.qsv
            && !hardware.amf,
        hardware.device_options() == ""@ <==> !hardware.cuda && !hardware.qsv && !hardware.amf,
        hardware.preset_index() == 0 <==> !hardware.cuda && (hardware.qsv || !hardware.amf),
        hardware.preset(names) is Some <==> 0 <= hardware.preset_index() < words(names).len(),
        hardware.preset(names) matches Some(name) ==> name == words(
            names,
        )[hardware.preset_index()],
        hardware.preset_option() == "-quality"@ <==> hardware.amf,
        hardware.preset_option() == "-preset"@ <==> !hardware.amf,
{
    reveal_strlit("-cq");
    reveal_strlit("-q");
    reveal_strlit("-qp_p");
    reveal_strlit("-crf");
    reveal_strlit(" -hwaccel_output_format cuda");
    reveal_strlit(" -hwaccel_output_format qsv");
    reveal_strlit(" -hwaccel_output_format d3d11va");
    reveal_strlit("");
    reveal_strlit("-quality");
    reveal_strlit("-preset");
    assert("-cq"@[1] != "-qp_p"@[1] && "-cq"@.len() != "-q"@.len() && "-cq"@.len()
        != "-crf"@.len());
    assert("-q"@.len() != "-qp_p"@.len() && "-q"@.len() != "-crf"@.len());
    assert("-qp_p"@[1] != "-crf"@[1]);
    assert("-quality"@.len() != "-preset"@.len());
    assert(" -hwaccel_output_format cuda"@.len() != " -hwaccel_output_format qsv"@.len());
    assert(" -hwaccel_output_format cuda"@.len() != " -hwaccel_output_format d3d11va"@.len());
    assert(" -hwaccel_output_format qsv"@.len() != " -hwaccel_output_format d3d11va"@.len());
}

/// Each hardware encoder may be used where it is asked for and its name stands in the listing,
/// whatever else stands there.
pub proof fn law_availability(hardware_accel: bool, listing: Seq<char>)
    ensures
        available(hardware_accel, listing).cuda <==> hardware_accel && occurs(
            listing,
            "h264_nvenc"@,
        ),
        available(hardware_accel, listing).qsv <==> hardware_accel && occurs(listing, "h264_qsv"@),
        available(hardware_accel, listing).amf <==> hardware_accel && occurs(listing, "h264_amf"@),
        available(hardware_accel, listing).cuda_hevc <==> hardware_accel && occurs(
            listing,
            "hevc_nvenc"@,
        ),
        available(hardware_accel, listing).qsv_hevc <==> hardware_accel && occurs(
            listing,
            "hevc_qsv"@,
        ),
        available(hardware_accel, listing).amf_hevc <==> hardware_accel && occurs(
            listing,
            "hevc_amf"@,
        ),
{
}

} // verus!
