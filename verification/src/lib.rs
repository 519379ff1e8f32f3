//! Deskoryn: one cursor, one clipboard and one file space over several
//! computers.

pub mod arrange;
pub mod arranger;
pub mod audio;
pub mod clipboard;
pub mod config;
pub mod conflict;
pub mod controller;
pub mod devices;
pub mod devmap;
pub mod dialing;
pub mod digest;
pub mod discovery;
pub mod dryrun;
pub mod endpoint;
pub mod filelist;
pub mod focus;
pub mod framing;
pub mod geometry;
pub mod hexcodec;
pub mod hotkey;
pub mod ids;
pub mod input;
pub mod ipc;
pub mod jitter;
pub mod keymap;
pub mod layout;
pub mod manifest;
pub mod message;
pub mod monitors;
pub mod pairflow;
pub mod pairing;
pub mod panels;
pub mod picture;
pub mod procs;
pub mod progress;
pub mod pump;
pub mod reframe;
pub mod selection;
pub mod session;
pub mod supervisor;
pub mod sync;
pub mod text;
pub mod transfer;
pub mod tray;
pub mod trust;
pub mod winhooks;
