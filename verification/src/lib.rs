pub mod audio;
pub mod capture;
pub mod config;
pub mod encode;
pub mod h264;
pub mod host;
pub mod signal;
pub mod startup;
pub mod text;
pub mod trace;
pub mod viewer;
pub mod webrtc;
