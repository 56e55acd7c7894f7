use kaldi_native_fbank::extract_window;
use kaldi_native_fbank::first_sample_of_frame;
use kaldi_native_fbank::pack_spectrum;
use kaldi_native_fbank::istft_total_len;
use kaldi_native_fbank::istft_trimmed_len;
use kaldi_native_fbank::num_frames;
use kaldi_native_fbank::stft_num_frames;
use kaldi_native_fbank::unpack_spectrum;
use kaldi_native_fbank::stft_pad;
use kaldi_native_fbank::FbankComputer;
use kaldi_native_fbank::FbankOptions;
use kaldi_native_fbank::FeatureComputer;
use kaldi_native_fbank::FrameOptions;
use kaldi_native_fbank::IstftOptions;
use kaldi_native_fbank::MelBanks;
use kaldi_native_fbank::MelError;
use kaldi_native_fbank::MelNorm;
use kaldi_native_fbank::MelOptions;
use kaldi_native_fbank::MfccComputer;
use kaldi_native_fbank::MfccOptions;
use kaldi_native_fbank::OnlineFeature;
use kaldi_native_fbank::PadMode;
use kaldi_native_fbank::RawAudioComputer;
use kaldi_native_fbank::RawAudioOptions;
use kaldi_native_fbank::StftOptions;
use kaldi_native_fbank::WhisperComputer;
use kaldi_native_fbank::WhisperOptions;
use kaldi_native_fbank::WindowKind;

/// Frame geometry and extraction shape for the default configuration.
#[test]
fn test_feature_window() {
    let opts = FrameOptions::default();
    assert_eq!(opts.window_size(), 400);
    assert_eq!(opts.padded_window_size(), 512);

    let wave: Vec<u32> = (0..512).collect();
    let mut window_buf: Vec<u32> = Vec::new();

    let res = extract_window(0, &wave, 0, &opts, &mut window_buf);
    assert!(res.is_ok());
    assert_eq!(window_buf.len(), 512);
    // Snip regime, frame 0: samples 0..400 copied, zero padding beyond.
    for s in 0..400 {
        assert_eq!(window_buf[s], wave[s]);
    }
    for s in 400..512 {
        assert_eq!(window_buf[s], 0);
    }

    // Frame 1 needs samples 160..560; only 512 are available, so in the
    // snip regime it is not extractable.
    let mut other: Vec<u32> = Vec::new();
    let res = extract_window(0, &wave[..400].to_vec(), 1, &opts, &mut other);
    assert!(res.is_err());
}

/// Snip-regime frame count: 400-sample frames every 160 samples over one
/// second of 16 kHz audio give 1 + (16000 - 400) / 160 = 98 frames.
#[test]
fn test_num_frames_snip() {
    let opts = FrameOptions::default();
    assert_eq!(num_frames(16000, &opts, false), 98);
    assert_eq!(num_frames(399, &opts, false), 0);
    assert_eq!(num_frames(400, &opts, false), 1);
    assert_eq!(num_frames(560, &opts, false), 2);
    // The snip count ignores the flush flag.
    assert_eq!(num_frames(16000, &opts, true), 98);
}

/// Centered-regime frame count, before and after finalization.
#[test]
fn test_num_frames_centered() {
    let mut opts = FrameOptions::default();
    opts.snip_edges = false;
    opts.round_to_power_of_two = false;
    // Base count rounds 16000 / 160 to nearest: 100. Unfinalized, frame 99
    // would end at sample 16120 > 16000, so one frame is held back.
    assert_eq!(num_frames(16000, &opts, false), 99);
    assert_eq!(num_frames(16000, &opts, true), 100);
    assert_eq!(num_frames(0, &opts, false), 0);
    assert_eq!(num_frames(0, &opts, true), 0);
}

/// First-sample positions under both boundary policies.
#[test]
fn test_first_sample_of_frame() {
    let snip = FrameOptions::default();
    assert_eq!(first_sample_of_frame(0, &snip), 0);
    assert_eq!(first_sample_of_frame(5, &snip), 800);

    let mut centered = FrameOptions::default();
    centered.snip_edges = false;
    // Frame 0 is centered on shift/2 = 80: it starts at 80 - 200 = -120.
    assert_eq!(first_sample_of_frame(0, &centered), -120);
    assert_eq!(first_sample_of_frame(1, &centered), 40);
}

/// Mirror reflection at the waveform head in the centered regime.
#[test]
fn test_extract_reflection() {
    // 1 kHz, 4 ms frames every 2 ms: frame 0 starts at 1 - 2 = -1.
    let opts = FrameOptions {
        samp_freq: 1000,
        frame_shift_ms: 2,
        frame_length_ms: 4,
        remove_dc_offset: false,
        window_type: WindowKind::Rectangular,
        round_to_power_of_two: false,
        snip_edges: false,
    };
    assert_eq!(opts.window_size(), 4);
    let wave: Vec<u32> = vec![10, 20, 30, 40, 50];
    let mut buf: Vec<u32> = Vec::new();
    let res = extract_window(0, &wave, 0, &opts, &mut buf);
    assert!(res.is_ok());
    // Sample -1 reflects to sample 0.
    assert_eq!(buf, vec![10, 10, 20, 30]);
}

fn collect_frames(online: &mut OnlineFeature, wave: &[u32], chunk: usize) -> Vec<Vec<u32>> {
    let rate = 16000;
    let mut out: Vec<Vec<u32>> = Vec::new();
    let mut start = 0;
    while start < wave.len() {
        let end = (start + chunk).min(wave.len());
        let piece: Vec<u32> = wave[start..end].to_vec();
        out.extend(online.accept_waveform(rate, &piece));
        start = end;
    }
    out.extend(online.input_finished());
    out
}

/// Online accumulation over arbitrary chunk sizes emits exactly the frames
/// the offline extraction over the whole waveform produces (snip regime).
#[test]
fn test_online() {
    let opts = FbankOptions::default();
    let wave: Vec<u32> = (0..16000).map(|i| i * 7 + 3).collect();

    let make = || {
        let comp = FbankComputer::new(FbankOptions::default()).unwrap();
        OnlineFeature::new(FeatureComputer::Fbank(comp))
    };

    let mut one_shot = make();
    let batch = collect_frames(&mut one_shot, &wave, wave.len());
    assert_eq!(one_shot.num_frames_ready(), 98);
    assert_eq!(batch.len(), 98);

    for chunk in [1usize, 160, 399, 1000, 16000] {
        let mut online = make();
        let frames = collect_frames(&mut online, &wave, chunk);
        assert_eq!(frames, batch, "chunk size {}", chunk);
    }

    // Each emitted frame is the offline extraction of that frame.
    let padded = opts.frame_opts.padded_window_size();
    for (f, frame) in batch.iter().enumerate() {
        let mut buf: Vec<u32> = Vec::new();
        extract_window(0, &wave, f, &opts.frame_opts, &mut buf).unwrap();
        assert_eq!(frame, &buf);
        assert_eq!(frame.len(), padded);
    }
}

/// Online accumulation in the centered regime: trailing frames appear only
/// at finalization, and every frame still equals its offline extraction
/// even though consumed samples were discarded along the way.
#[test]
fn test_online_centered() {
    let mut opts = FbankOptions::default();
    opts.frame_opts.snip_edges = false;
    opts.frame_opts.round_to_power_of_two = false;

    let wave: Vec<u32> = (0..16000).map(|i| i * 13 + 1).collect();

    let comp = FbankComputer::new(opts).unwrap();
    let mut online = OnlineFeature::new(FeatureComputer::Fbank(comp));

    let mut frames: Vec<Vec<u32>> = Vec::new();
    for piece in wave.chunks(731) {
        frames.extend(online.accept_waveform(16000, &piece.to_vec()));
    }
    assert_eq!(online.num_frames_ready(), 99);
    frames.extend(online.input_finished());
    assert_eq!(online.num_frames_ready(), 100);
    assert_eq!(frames.len(), 100);

    for (f, frame) in frames.iter().enumerate() {
        let mut buf: Vec<u32> = Vec::new();
        extract_window(0, &wave, f, &opts.frame_opts, &mut buf).unwrap();
        assert_eq!(frame, &buf, "frame {}", f);
    }

    // Finalizing again emits nothing further.
    assert!(online.input_finished().is_empty());
}

/// HTK-compatible rotation: with 13 coefficients the output is the plain
/// output shifted left by one, with coefficient 0 moved to index 12.
#[test]
fn test_htk_rotation() {
    let mut opts = MfccOptions::default();
    opts.htk_compat = true;
    assert_eq!(opts.num_ceps, 13);
    let comp = MfccComputer::new(opts).unwrap();
    assert_eq!(comp.dim(), 13);

    let plain: Vec<u32> = (100..113).collect();
    let mut rotated = plain.clone();
    comp.htk_finalize(&mut rotated, None);
    for i in 0..12 {
        assert_eq!(rotated[i], plain[i + 1]);
    }
    assert_eq!(rotated[12], plain[0]);
}

/// Layout of one log-mel output frame: energy leads, mel bins follow.
#[test]
fn test_fbank_layout() {
    let opts = FbankOptions::default();
    let comp = FbankComputer::new(opts).unwrap();
    assert_eq!(comp.dim(), 26);

    let mel: Vec<u32> = (500..525).collect();
    let mut feature: Vec<u32> = vec![0; 26];
    comp.place_feature(&mel, 77, &mut feature);
    assert_eq!(feature[0], 77);
    for j in 0..25 {
        assert_eq!(feature[1 + j], mel[j]);
    }

    let mut no_energy = FbankOptions::default();
    no_energy.use_energy = false;
    let comp = FbankComputer::new(no_energy).unwrap();
    assert_eq!(comp.dim(), 25);
    let mut feature: Vec<u32> = vec![0; 25];
    comp.place_feature(&mel, 77, &mut feature);
    for j in 0..25 {
        assert_eq!(feature[j], mel[j]);
    }
}

/// Filterbank shape for the default 25 ms / 10 ms framing.
#[test]
fn test_mel_banks() {
    let fopts = FrameOptions::default();
    let mut mopts = MelOptions::default();
    mopts.num_bins = 10;

    let banks = MelBanks::new(&mopts, &fopts).expect("Failed to create mel banks");
    assert_eq!(banks.num_bins, 10);
    // Padded frame length 512 gives 256 spectral columns.
    assert_eq!(banks.num_fft_bins, 256);
}

/// Invalid mel frequency ranges are rejected at construction, valid ones
/// accepted.
#[test]
fn test_mel_range_validity() {
    let fopts = FrameOptions::default();

    let mut low_too_high = MelOptions::default();
    low_too_high.low_freq = 8000; // at Nyquist
    assert_eq!(
        MelBanks::new(&low_too_high, &fopts),
        Err(MelError::InvalidFrequencyRange)
    );

    let mut negative_low = MelOptions::default();
    negative_low.low_freq = -1;
    assert!(MelBanks::new(&negative_low, &fopts).is_err());

    let mut high_below_zero = MelOptions::default();
    high_below_zero.high_freq = -9000; // 9 kHz below the 8 kHz Nyquist
    assert!(MelBanks::new(&high_below_zero, &fopts).is_err());

    let mut high_offset = MelOptions::default();
    high_offset.high_freq = -100; // effective 7900 Hz
    assert!(MelBanks::new(&high_offset, &fopts).is_ok());

    let mut explicit_high = MelOptions::default();
    explicit_high.high_freq = 8000; // exactly Nyquist
    assert!(MelBanks::new(&explicit_high, &fopts).is_ok());

    let mut too_high = MelOptions::default();
    too_high.high_freq = 8001;
    assert!(MelBanks::new(&too_high, &fopts).is_err());

    let mut inverted = MelOptions::default();
    inverted.low_freq = 4000;
    inverted.high_freq = 3000;
    assert!(MelBanks::new(&inverted, &fopts).is_err());
}

/// A failed construction surfaces through the computers as well.
#[test]
fn test_computer_invalid_config() {
    let mut fopts = FbankOptions::default();
    fopts.mel_opts.low_freq = 9000;
    assert!(FbankComputer::new(fopts).is_err());

    let mut mopts = MfccOptions::default();
    mopts.mel_opts.high_freq = 16000;
    assert!(MfccComputer::new(mopts).is_err());
}

/// The mel-spectrogram variant: fixed framing defaults and bin count.
#[test]
fn test_whisper() {
    let opts = WhisperOptions::default();
    assert_eq!(opts.frame_opts.samp_freq, 16000);
    assert_eq!(opts.frame_opts.window_size(), 400);
    assert_eq!(opts.frame_opts.padded_window_size(), 400);
    assert!(!opts.frame_opts.snip_edges);
    assert_eq!(opts.frame_opts.window_type, WindowKind::Hann);
    assert_eq!(opts.dim, 80);

    let comp = WhisperComputer::new(opts).expect("Failed");
    assert_eq!(comp.dim(), 80);
    assert_eq!(comp.mel_banks.num_fft_bins, 200);
}

/// The raw passthrough variant copies the frame through unchanged.
#[test]
fn test_raw_passthrough() {
    let comp = RawAudioComputer::new(RawAudioOptions::default());
    assert_eq!(comp.dim(), 512);

    let signal: Vec<u32> = (0..512).map(|i| i + 9).collect();
    let mut feature: Vec<u32> = vec![0; 512];
    comp.compute(&signal, &mut feature);
    assert_eq!(feature, signal);

    // A short output buffer stays untouched.
    let mut short: Vec<u32> = vec![42; 100];
    comp.compute(&signal, &mut short);
    assert_eq!(short, vec![42; 100]);
}

/// Forward framing arithmetic of the short-time transform.
#[test]
fn test_stft_framing() {
    // 640 samples centered with n_fft 400 pad to 1040: five hops fit.
    assert_eq!(stft_num_frames(1040, 400, 160), 5);
    assert_eq!(stft_num_frames(399, 400, 160), 0);
    assert_eq!(stft_num_frames(400, 400, 160), 1);

    let mut opts = StftOptions::default();
    opts.n_fft = 4;
    let wave: Vec<u32> = (1..=8).collect();

    let padded = stft_pad(&wave, &opts);
    assert_eq!(padded, vec![3, 2, 1, 2, 3, 4, 5, 6, 7, 8, 7, 6]);

    opts.pad_mode = PadMode::Replicate;
    let padded = stft_pad(&wave, &opts);
    assert_eq!(padded, vec![1, 1, 1, 2, 3, 4, 5, 6, 7, 8, 8, 8]);

    opts.pad_mode = PadMode::Constant;
    let padded = stft_pad(&wave, &opts);
    assert_eq!(padded, vec![0, 0, 1, 2, 3, 4, 5, 6, 7, 8, 0, 0]);

    opts.center = false;
    let padded = stft_pad(&wave, &opts);
    assert_eq!(padded, wave);
}

/// Overlap-add output length and centered trimming of the inverse
/// transform: five frames of the default configuration reconstruct the
/// original 640 samples.
#[test]
fn test_istft_lengths() {
    let total = istft_total_len(400, 160, 5);
    assert_eq!(total, 1040);
    assert_eq!(istft_trimmed_len(total, 400, true), 640);
    assert_eq!(istft_trimmed_len(total, 400, false), 1040);
    assert_eq!(istft_trimmed_len(300, 400, true), 0);
}

/// Default configurations carry the documented conventions.
#[test]
fn test_defaults() {
    let f = FrameOptions::default();
    assert_eq!(f.samp_freq, 16000);
    assert_eq!(f.frame_shift_ms, 10);
    assert_eq!(f.frame_length_ms, 25);
    assert!(f.remove_dc_offset);
    assert_eq!(f.window_type, WindowKind::Povey);
    assert!(f.round_to_power_of_two);
    assert!(f.snip_edges);
    assert_eq!(f.window_shift(), 160);

    let m = MelOptions::default();
    assert_eq!(m.num_bins, 25);
    assert_eq!(m.low_freq, 20);
    assert_eq!(m.high_freq, 0);
    assert_eq!(m.vtln_low, 100);
    assert_eq!(m.vtln_high, -500);
    assert_eq!(m.norm, MelNorm::Slaney);

    let fb = FbankOptions::default();
    assert!(fb.use_energy && fb.raw_energy && fb.use_log_fbank && fb.use_power);
    assert!(!fb.htk_compat);

    let mc = MfccOptions::default();
    assert_eq!(mc.num_ceps, 13);
    assert!(mc.use_energy && mc.raw_energy && !mc.htk_compat);

    let s = StftOptions::default();
    assert_eq!((s.n_fft, s.hop_length, s.win_length), (400, 160, 400));
    assert!(s.center && !s.normalized);
    assert_eq!(s.pad_mode, PadMode::Reflect);

    let i = IstftOptions::default();
    assert_eq!((i.n_fft, i.hop_length, i.win_length), (400, 160, 400));
    assert_eq!(i.window_type, WindowKind::Povey);
    assert!(i.center && !i.normalized);

    let from_stft = IstftOptions::from(&s);
    assert_eq!(from_stft.n_fft, s.n_fft);
    assert_eq!(from_stft.hop_length, s.hop_length);
    assert_eq!(from_stft.win_length, s.win_length);
    assert_eq!(from_stft.window_type, WindowKind::Povey);
    assert_eq!(from_stft.center, s.center);
    assert_eq!(from_stft.normalized, s.normalized);
}

/// The accumulator reports the variant's frame geometry and energy needs.
#[test]
fn test_feature_computer_queries() {
    let fb = FbankComputer::new(FbankOptions::default()).unwrap();
    let comp = FeatureComputer::Fbank(fb);
    assert_eq!(comp.frame_opts().samp_freq, 16000);
    assert_eq!(comp.dim(), 26);
    assert!(comp.need_raw_energy());

    let mut opts = MfccOptions::default();
    opts.use_energy = false;
    let mf = MfccComputer::new(opts).unwrap();
    let comp = FeatureComputer::Mfcc(mf);
    assert_eq!(comp.dim(), 13);
    assert!(!comp.need_raw_energy());
}

/// The packed spectral layout: DC and Nyquist reals up front, interleaved
/// real/imaginary pairs for the interior bins, and packing inverts
/// unpacking.
#[test]
fn test_packed_spectrum_layout() {
    // Packed spectrum for length 8: [Re0, Re4, Re1, Im1, Re2, Im2, Re3, Im3].
    let packed: Vec<u32> = vec![90, 94, 91, 201, 92, 202, 93, 203];
    let (re, im) = unpack_spectrum(&packed, 8);
    assert_eq!(re, vec![90, 91, 92, 93, 94]);
    assert_eq!(im, vec![0, 201, 202, 203, 0]);

    let repacked = pack_spectrum(&re, &im, 8);
    assert_eq!(repacked, packed);
}

/// Samples accepted after finalization still extend the stream, and the
/// emitted frames keep matching the offline extraction of the full
/// waveform.
#[test]
fn test_accept_after_finish() {
    let opts = FbankOptions::default();
    let wave: Vec<u32> = (0..1200).map(|i| i * 3 + 5).collect();

    let comp = FbankComputer::new(opts).unwrap();
    let mut online = OnlineFeature::new(FeatureComputer::Fbank(comp));

    let mut frames: Vec<Vec<u32>> = Vec::new();
    frames.extend(online.accept_waveform(16000, &wave[..800].to_vec()));
    frames.extend(online.input_finished());
    assert_eq!(online.num_frames_ready(), 3); // 1 + (800 - 400) / 160
    frames.extend(online.accept_waveform(16000, &wave[800..].to_vec()));
    assert_eq!(online.num_frames_ready(), 6); // 1 + (1200 - 400) / 160
    assert_eq!(frames.len(), 6);

    for (f, frame) in frames.iter().enumerate() {
        let mut buf: Vec<u32> = Vec::new();
        extract_window(0, &wave, f, &opts.frame_opts, &mut buf).unwrap();
        assert_eq!(frame, &buf, "frame {}", f);
    }
}
