//! The verified core of a wireless second screen: everything the host decides
//! or computes between grabbing a screen and handing bytes to the network.

pub mod annexb;
pub mod audio;
pub mod audio_route;
pub mod audio_route_linux;
pub mod capture;
pub mod cli;
pub mod convert;
pub mod cursor;
pub mod encoder;
pub mod engine;
pub mod ffmpeg_engine;
pub mod focus_follow;
pub mod gst_engine;
pub mod gui;
pub mod payload;
pub mod pipeline;
pub mod protocol;
pub mod pump;
pub mod screencast;
pub mod selection;
pub mod session;
pub mod signaling;
pub mod text;
pub mod utf16;
pub mod vdd;
