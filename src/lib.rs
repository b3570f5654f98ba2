//! Audio analysis and streaming core of a spectrogram visualiser.
//!
//! The library holds the logic that decides: how a signal is cut into
//! analysis frames, how the real-time output callback turns the items of the
//! streaming queue into output frames, how the playback position is tracked,
//! and which colour tables the visualiser draws with. Floating-point work
//! (windowing, the Fourier transform, decibels) and all I/O stay with the
//! caller.
pub mod colormap;
pub mod decode;
pub mod mixer;
pub mod position;
pub mod queue;
pub mod stft;
pub mod stream;

pub use colormap::{
    norm_width, ColorMap, ColorMapData, ColorMapSelection, LayerMode, GRADIENT_WIDTH,
};
pub use decode::{
    debug_wav_samples, decimate, packet_action, split_planar, wants_packet, CopyMethod,
    DecodeStatus, MonoDump, OpenError, PacketAction, DEBUG_WAV_STEP,
};
pub use mixer::{MixView, Mixer};
pub use position::PlaybackPosition;
pub use queue::{prime, push_signals, ControlledSample};
pub use stft::{bin_count, center_rotate, frame_count, frames, positive_bins};
pub use stream::{open_stream, StreamError, StreamParts, StreamSettings};
