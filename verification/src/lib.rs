//! Encoder for a pulse-duration-modulated FSK audio signal: bytes become
//! ordered tone segments (frequency, amplitude, duration) that a playback
//! sink renders back-to-back over an analog audio channel.

pub mod encode;
pub mod frame;
pub mod tone;
