//! A monophonic wavetable synthesizer core: control commands in, interleaved
//! stereo samples out, with every sample held as a single-precision bit
//! pattern.

pub mod command;
pub mod engine;
pub mod input;
pub mod midi;
pub mod oscillator;
pub mod pitch;
pub mod processor;
pub mod single;
pub mod wavetable;
