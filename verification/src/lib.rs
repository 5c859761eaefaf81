//! Planning half of a chart video renderer.
//!
//! A render plays a chart off screen, mixes its sound track and pipes the frames to ffmpeg.
//! This crate settles everything about it that can be said in plain values: what the settings
//! mean for the player, which ffmpeg and which encoder to use and with which arguments, which
//! sample of which sound goes where in the track, and in which order frames are drawn, copied,
//! delivered and reported. The application around it reads, plays, draws and writes.
//!
//! - [`request`] and [`config`]: what a render is asked for.
//! - [`player`]: the player shown in the video.
//! - [`ffmpeg`], [`encoder`] and [`command`]: the programs that are run.
//! - [`mixer`]: the sound track.
//! - [`session`], [`frames`] and [`events`]: the course of a render.
//! - [`text`], [`ieee`] and [`error`]: what the others are written with.

pub mod command;
pub mod config;
pub mod encoder;
pub mod error;
pub mod events;
pub mod ffmpeg;
pub mod frames;
pub mod ieee;
pub mod mixer;
pub mod player;
pub mod request;
pub mod session;
pub mod text;
