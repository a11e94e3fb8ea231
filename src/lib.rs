//! Pitch detection building blocks: a fixed-capacity ring buffer of samples with its
//! iterators, the index work of a radix-2 FFT (bit-reversal order, frequency bins,
//! transform sizes), note naming, and a reader for RIFF/WAVE containers.

pub mod app;
pub mod audio_analysis;
pub mod circular_buffer;
pub mod fft;
pub mod iter;
pub mod wav;
