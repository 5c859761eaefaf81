//! The settings of a render request and the player configuration made from them.

use vstd::prelude::*;

use crate::ieee::{Double, Single};

verus! {

/// The settings that a render request carries.
#[derive(Debug)]
pub struct RenderConfig {
    pub resolution: (u32, u32),
    /// Preset names separated by white space: one for Quick Sync and software encoders, one for
    /// NVENC, one for AMF.
    pub ffmpeg_preset: String,
    /// Seconds that the ending screen is shown.
    pub ending_length: Double,
    pub disable_loading: bool,
    pub chart_debug: bool,
    pub flid_x: bool,
    pub chart_ratio: Single,
    pub buffer_size: Single,
    pub combo: String,
    pub fps: u32,
    pub hardware_accel: bool,
    pub hevc: bool,
    pub bitrate_control: String,
    pub bitrate: String,
    pub aggressive: bool,
    /// The name of the challenge mode colour.
    pub challenge_color: String,
    pub challenge_rank: u32,
    pub disable_effect: bool,
    pub double_hint: bool,
    pub fxaa: bool,
    pub note_scale: Single,
    pub particle: bool,
    pub player_avatar: Option<String>,
    pub player_name: String,
    pub player_rks: Single,
    pub sample_count: u32,
    pub res_pack_path: Option<String>,
    pub speed: Single,
    pub volume_music: Single,
    pub volume_sfx: Single,
}

/// The gameplay modifiers that a render sets.
#[derive(Clone, Copy, PartialEq, Eq, Structural, Debug)]
pub enum Mods {
    /// Those that the player starts with.
    Standard,
    /// The chart plays itself.
    Autoplay,
}

/// The part of the player's configuration that a render sets. Whatever else the player can be
/// told keeps the player's own default.
#[derive(Debug)]
pub struct Config {
    pub aggressive: bool,
    pub challenge_color: String,
    pub challenge_rank: u32,
    pub disable_effect: bool,
    pub double_hint: bool,
    pub fxaa: bool,
    pub note_scale: Single,
    pub particle: bool,
    pub player_name: String,
    pub player_rks: Single,
    pub sample_count: u32,
    pub res_pack_path: Option<String>,
    pub speed: Single,
    pub volume_music: Single,
    pub volume_sfx: Single,
    pub chart_debug: bool,
    pub chart_ratio: Single,
    pub buffer_size: Single,
    pub combo: String,
    pub flid_x: bool,
    pub mods: Mods,
}

/// What a render reads of the description of a chart.
#[derive(Debug)]
pub struct ChartInfo {
    /// The music file, relative to the chart.
    pub music: String,
}

/// A render request: a chart and the settings to render it with.
#[derive(Debug)]
pub struct RenderParams {
    pub path: String,
    pub info: ChartInfo,
    pub config: RenderConfig,
}

/// What a render starts from.
#[derive(Debug)]
pub struct Setup {
    pub path: String,
    pub music: String,
    /// The player plays on its own and in silence: the track is mixed apart.
    pub config: Config,
    pub volume_music: Single,
    pub volume_sfx: Single,
}

impl RenderConfig {
    /// The player configuration that carries these settings.
    pub open spec fn player_config(self) -> Config {
        Config {
            aggressive: self.aggressive,
            challenge_color: self.challenge_color,
            challenge_rank: self.challenge_rank,
            disable_effect: self.disable_effect,
            double_hint: self.double_hint,
            fxaa: self.fxaa,
            note_scale: self.note_scale,
            particle: self.particle,
            player_name: self.player_name,
            player_rks: self.player_rks,
            sample_count: self.sample_count,
            res_pack_path: self.res_pack_path,
            speed: self.speed,
            volume_music: self.volume_music,
            volume_sfx: self.volume_sfx,
            chart_debug: self.chart_debug,
            chart_ratio: self.chart_ratio,
            buffer_size: self.buffer_size,
            combo: self.combo,
            flid_x: self.flid_x,
            mods: Mods::Standard,
        }
    }

    /// Makes the player configuration.
    pub fn to_config(&self) -> (config: Config)
        ensures
            config == self.player_config(),
            config.aggressive == self.aggressive,
            config.challenge_color == self.challenge_color,
            config.challenge_rank == self.challenge_rank,
            config.disable_effect == self.disable_effect,
            config.double_hint == self.double_hint,
            config.fxaa == self.fxaa,
            config.note_scale == self.note_scale,
            config.particle == self.particle,
            config.player_name == self.player_name,
            config.player_rks == self.player_rks,
            config.sample_count == self.sample_count,
            config.res_pack_path == self.res_pack_path,
            config.speed == self.speed,
            config.volume_music == self.volume_music,
            config.volume_sfx == self.volume_sfx,
            config.chart_debug == self.chart_debug,
            config.chart_ratio == self.chart_ratio,
            config.buffer_size == self.buffer_size,
            config.combo == self.combo,
            config.flid_x == self.flid_x,
            config.mods == Mods::Standard,
    {
        Config {
            aggressive: self.aggressive,
            challenge_color: self.challenge_color.clone(),
            challenge_rank: self.challenge_rank,
            disable_effect: self.disable_effect,
            double_hint: self.double_hint,
            fxaa: self.fxaa,
            note_scale: self.note_scale,
            particle: self.particle,
            player_name: self.player_name.clone(),
            player_rks: self.player_rks,
            sample_count: self.sample_count,
            res_pack_path: self.res_pack_path.clone(),
            speed: self.speed,
            volume_music: self.volume_music,
            volume_sfx: self.volume_sfx,
            chart_debug: self.chart_debug,
            chart_ratio: self.chart_ratio,
            buffer_size: self.buffer_size,
            combo: self.combo.clone(),
            flid_x: self.flid_x,
            mods: Mods::Standard,
        }
    }
}

impl Config {
    /// Takes the two volumes out, which leaves the player silent.
    pub fn take_volumes(&mut self) -> (volumes: (Single, Single))
        ensures
            volumes == (old(self).volume_music, old(self).volume_sfx),
            *final(self) == (Config {
                volume_music: Single { bits: 0 },
                volume_sfx: Single { bits: 0 },
                ..*old(self)
            }),
    {
        let music = self.volume_music;
        let sfx = self.volume_sfx;
        self.volume_music = Single::zero();
        self.volume_sfx = Single::zero();
        (music, sfx)
    }
}

impl RenderParams {
    /// Reads from the request what a render starts from.
    pub fn prepare(&self) -> (setup: Setup)
        ensures
            setup.path == self.path,
            setup.music == self.info.music,
            setup.volume_music == self.config.volume_music,
            setup.volume_sfx == self.config.volume_sfx,
            setup.config == (Config {
                mods: Mods::Autoplay,
                volume_music: Single { bits: 0 },
                volume_sfx: Single { bits: 0 },
                ..self.config.player_config()
            }),
            setup.config.aggressive == self.config.aggressive,
            setup.config.challenge_color == self.config.challenge_color,
            setup.config.challenge_rank == self.config.challenge_rank,
            setup.config.disable_effect == self.config.disable_effect,
            setup.config.double_hint == self.config.double_hint,
            setup.config.fxaa == self.config.fxaa,
            setup.config.note_scale == self.config.note_scale,
            setup.config.particle == self.config.particle,
            setup.config.player_name == self.config.player_name,
            setup.config.player_rks == self.config.player_rks,
            setup.config.sample_count == self.config.sample_count,
            setup.config.res_pack_path == self.config.res_pack_path,
            setup.config.speed == self.config.speed,
            setup.config.chart_debug == self.config.chart_debug,
            setup.config.chart_ratio == self.config.chart_ratio,
            setup.config.buffer_size == self.config.buffer_size,
            setup.config.combo == self.config.combo,
            setup.config.flid_x == self.config.flid_x,
            setup.config.volume_music.bits == 0,
            setup.config.volume_sfx.bits == 0,
            setup.config.mods == Mods::Autoplay,
    {
        let mut config = self.config.to_config();
        config.mods = Mods::Autoplay;
        let (volume_music, volume_sfx) = config.take_volumes();
        Setup {
            path: self.path.clone(),
            music: self.info.music.clone(),
            config,
            volume_music,
            volume_sfx,
        }
    }
}

impl Clone for RenderConfig {
    fn clone(&self) -> (copy: Self)
        ensures
            copy == *self,
    {
        RenderConfig {
            resolution: self.resolution,
            ffmpeg_preset: self.ffmpeg_preset.clone(),
            ending_length: self.ending_length,
            disable_loading: self.disable_loading,
            chart_debug: self.chart_debug,
            flid_x: self.flid_x,
            chart_ratio: self.chart_ratio,
            buffer_size: self.buffer_size,
            combo: self.combo.clone(),
            fps: self.fps,
            hardware_accel: self.hardware_accel,
            hevc: self.hevc,
            bitrate_control: self.bitrate_control.clone(),
            bitrate: self.bitrate.clone(),
            aggressive: self.aggressive,
            challenge_color: self.challenge_color.clone(),
            challenge_rank: self.challenge_rank,
            disable_effect: self.disable_effect,
            double_hint: self.double_hint,
            fxaa: self.fxaa,
            note_scale: self.note_scale,
            particle: self.particle,
            player_avatar: self.player_avatar.clone(),
            player_name: self.player_name.clone(),
            player_rks: self.player_rks,
            sample_count: self.sample_count,
            res_pack_path: self.res_pack_path.clone(),
            speed: self.speed,
            volume_music: self.volume_music,
            volume_sfx: self.volume_sfx,
        }
    }
}

impl Clone for Config {
    fn clone(&self) -> (copy: Self)
        ensures
            copy == *self,
    {
        Config {
            aggressive: self.aggressive,
            challenge_color: self.challenge_color.clone(),
            challenge_rank: self.challenge_rank,
            disable_effect: self.disable_effect,
            double_hint: self.double_hint,
            fxaa: self.fxaa,
            note_scale: self.note_scale,
            particle: self.particle,
            player_name: self.player_name.clone(),
            player_rks: self.player_rks,
            sample_count: self.sample_count,
            res_pack_path: self.res_pack_path.clone(),
            speed: self.speed,
            volume_music: self.volume_music,
            volume_sfx: self.volume_sfx,
            chart_debug: self.chart_debug,
            chart_ratio: self.chart_ratio,
            buffer_size: self.buffer_size,
            combo: self.combo.clone(),
            flid_x: self.flid_x,
            mods: self.mods,
        }
    }
}

impl Clone for ChartInfo {
    fn clone(&self) -> (copy: Self)
        ensures
            copy == *self,
    {
        ChartInfo {
            music: self.music.clone(),
        }
    }
}

impl Clone for RenderParams {
    fn clone(&self) -> (copy: Self)
        ensures
            copy == *self,
    {
        RenderParams {
            path: self.path.clone(),
            info: self.info.clone(),
            config: self.config.clone(),
        }
    }
}

/// Every setting of the player is the setting of the same name in the request.
pub proof fn law_settings_keep_their_names(settings: RenderConfig)
    ensures
        settings.player_config().aggressive == settings.aggressive,
        settings.player_config().challenge_color == settings.challenge_color,
        settings.player_config().challenge_rank == settings.challenge_rank,
        settings.player_config().disable_effect == settings.disable_effect,
        settings.player_config().double_hint == settings.double_hint,
        settings.player_config().fxaa == settings.fxaa,
        settings.player_config().note_scale == settings.note_scale,
        settings.player_config().particle == settings.particle,
        settings.player_config().player_name == settings.player_name,
        settings.player_config().player_rks == settings.player_rks,
        settings.player_config().sample_count == settings.sample_count,
        settings.player_config().res_pack_path == settings.res_pack_path,
        settings.player_config().speed == settings.speed,
        settings.player_config().volume_music == settings.volume_music,
        settings.player_config().volume_sfx == settings.volume_sfx,
        settings.player_config().chart_debug == settings.chart_debug,
        settings.player_config().chart_ratio == settings.chart_ratio,
        settings.player_config().buffer_size == settings.buffer_size,
        settings.player_config().combo == settings.combo,
        settings.player_config().flid_x == settings.flid_x,
        settings.player_config().mods == Mods::Standard,
{
}

/// Two requests give the same player exactly where they agree on every setting that the player
/// has; what concerns the encoder, the window or the ending has no influence.
pub proof fn law_player_depends_on_its_settings(a: RenderConfig, b: RenderConfig)
    ensures
        a.player_config() == b.player_config() <==> {
            &&& a.aggressive == b.aggressive
            &&& a.challenge_color == b.challenge_color
            &&& a.challenge_rank == b.challenge_rank
            &&& a.disable_effect == b.disable_effect
            &&& a.double_hint == b.double_hint
            &&& a.fxaa == b.fxaa
            &&& a.note_scale == b.note_scale
            &&& a.particle == b.particle
            &&& a.player_name == b.player_name
            &&& a.player_rks == b.player_rks
            &&& a.sample_count == b.sample_count
            &&& a.res_pack_path == b.res_pack_path
            &&& a.speed == b.speed
            &&& a.volume_music == b.volume_music
            &&& a.volume_sfx == b.volume_sfx
            &&& a.chart_debug == b.chart_debug
            &&& a.chart_ratio == b.chart_ratio
            &&& a.buffer_size == b.buffer_size
            &&& a.combo == b.combo
            &&& a.flid_x == b.flid_x
        },
{
}

} // verus!
