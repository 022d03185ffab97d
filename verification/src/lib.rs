//! Driving an array of individually addressable LEDs that is split across
//! physical strips, and calibrating where each LED sits in space.
//!
//! The library decides what is to be sent, logged or recorded, and proves
//! that it decides as documented. Reading cameras and talking to serial
//! lines and sockets is left to the caller, who hands in what was read and
//! carries out what is handed back.

pub mod demo;
pub mod manager;
pub mod manual;
pub mod naming;
pub mod persist;
pub mod phases;
pub mod playback;
pub mod positions;
pub mod recorder;
pub mod roundtrip;
pub mod routing;
pub mod scan;
pub mod speedtest;
pub mod text;
pub mod transport;
pub mod unity;
pub mod vision;
pub mod wire;
