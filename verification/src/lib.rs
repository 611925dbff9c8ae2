//! Verified core of a controller for the `/dev/xiaomi-touch` ioctl interface:
//! request-number encoding, the byte layout of the request buffers of the
//! three protocol generations, the mode-name table, the gamemode
//! configuration parser, and the decisions taken by the command-line tool
//! and the daemons.

pub mod ioctl;
pub mod wire;

pub mod text;
pub mod modes;
pub mod config;
pub mod gamemode;
pub mod protocol;
pub mod cli;
pub mod daemon;
pub mod request;
pub mod tool;
