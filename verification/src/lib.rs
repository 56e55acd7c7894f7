//! Streaming acoustic feature extraction: frame geometry, mel filterbank
//! configuration, and an online accumulator whose output provably matches
//! offline (whole-waveform) computation.
//!
//! The crate verifies everything that can be stated over integers and sample
//! positions: frame sizing and boundary policy, reflective edge padding, the
//! streaming accumulator's buffering and garbage collection, and the layout of
//! the produced feature vectors. Samples travel through this crate as opaque
//! 32-bit words; the numeric (floating-point) signal processing that consumes
//! the extracted frames lives outside the verified core.

mod fbank;
mod istft;
mod mel;
mod mfcc;
mod online;
mod raw;
mod rfft;
mod stft;
mod whisper;
mod window;

pub use fbank::energy_index_spec;
pub use fbank::fbank_dim_spec;
pub use fbank::mel_offset_spec;
pub use fbank::FbankComputer;
pub use fbank::FbankOptions;
pub use istft::istft_total_len;
pub use istft::istft_total_len_spec;
pub use istft::istft_trimmed_len;
pub use istft::istft_trimmed_len_spec;
pub use istft::IstftOptions;
pub use mel::high_freq_x2_spec;
pub use mel::valid_mel_range_spec;
pub use mel::MelBanks;
pub use mel::MelError;
pub use mel::MelNorm;
pub use mel::MelOptions;
pub use mfcc::MfccComputer;
pub use mfcc::MfccOptions;
pub use online::FeatureComputer;
pub use online::OnlineFeature;
pub use raw::RawAudioComputer;
pub use raw::RawAudioOptions;
pub use rfft::pack_spectrum;
pub use rfft::packed_imag_spec;
pub use rfft::packed_real_spec;
pub use rfft::packed_spectrum_spec;
pub use rfft::unpack_spectrum;
pub use stft::stft_frames_spec;
pub use stft::stft_num_frames;
pub use stft::stft_pad;
pub use stft::stft_padded_spec;
pub use stft::PadMode;
pub use stft::StftOptions;
pub use whisper::whisper_mel_opts_spec;
pub use whisper::WhisperComputer;
pub use whisper::WhisperOptions;
pub use window::centered_base_spec;
pub use window::centered_trim_spec;
pub use window::extract_window;
pub use window::extracted_frame_spec;
pub use window::first_sample_of_frame;
pub use window::first_sample_spec;
pub use window::frame_ready_spec;
pub use window::lemma_determined_frame_stable;
pub use window::lemma_first_sample_monotone;
pub use window::lemma_frame_bounds;
pub use window::lemma_next_pow2_bounds;
pub use window::lemma_num_frames_flush;
pub use window::lemma_num_frames_monotone;
pub use window::lemma_streaming_frame_matches_offline;
pub use window::num_frames;
pub use window::num_frames_spec;
pub use window::offline_frame_spec;
pub use window::reflect_spec;
pub use window::snip_frames_spec;
pub use window::FrameOptions;
pub use window::WindowKind;
