//! Frame-by-frame logic of an audio-reactive camera effects demo: the audio
//! sample ring, spectrum band layout, portal (hole) bookkeeping, keyboard
//! control state, camera frame classification and GPU metric decoding.
//!
//! Everything here works on integers and plain data; the floating-point
//! rendering math and the window, camera, GPU and audio plumbing live in the
//! application around this library.

pub mod ring;
pub mod spectrum;
pub mod portals;
pub mod burst;
pub mod camera;
pub mod gpu;
pub mod controls;
