use audio_recorder::bytes::{push_i16_le, push_u16_le, push_u32_le};
use audio_recorder::encoder::{max_frames_for, Encoder};
use audio_recorder::mix::mix_to_mono;
use audio_recorder::resample::Resampler;
use audio_recorder::session::{
    check_stopped_file, get_recording_status, RecorderError, RecordingState,
};
use audio_recorder::wav::WavWriter;
use audio_recorder::FRAME_SIZE_SAMPLES;

#[test]
fn le_encoding_exact_bytes() {
    let mut v: Vec<u8> = Vec::new();
    push_u32_le(&mut v, 0x12345678);
    assert_eq!(v, vec![0x78, 0x56, 0x34, 0x12]);

    let mut v: Vec<u8> = Vec::new();
    push_u16_le(&mut v, 0xABCD);
    assert_eq!(v, vec![0xCD, 0xAB]);

    let mut v: Vec<u8> = Vec::new();
    push_i16_le(&mut v, -1);
    assert_eq!(v, vec![0xFF, 0xFF]);

    let mut v: Vec<u8> = Vec::new();
    push_i16_le(&mut v, -32768);
    assert_eq!(v, vec![0x00, 0x80]);

    let mut v: Vec<u8> = Vec::new();
    push_i16_le(&mut v, 0x1234);
    assert_eq!(v, vec![0x34, 0x12]);
}

#[test]
fn wav_header_exact_bytes() {
    let mut w = WavWriter::new(48000, 1);
    w.write_samples(&vec![1i16, -2i16]);
    let file = w.finish();
    assert_eq!(file.len(), 48);
    // "RIFF", container size = data (4) + 36 = 40
    assert_eq!(&file[0..4], b"RIFF");
    assert_eq!(&file[4..8], &40u32.to_le_bytes());
    assert_eq!(&file[8..12], b"WAVE");
    assert_eq!(&file[12..16], b"fmt ");
    assert_eq!(&file[16..20], &16u32.to_le_bytes());
    assert_eq!(&file[20..22], &1u16.to_le_bytes()); // PCM
    assert_eq!(&file[22..24], &1u16.to_le_bytes()); // mono
    assert_eq!(&file[24..28], &48000u32.to_le_bytes());
    assert_eq!(&file[28..32], &96000u32.to_le_bytes()); // byte rate
    assert_eq!(&file[32..34], &2u16.to_le_bytes()); // block align
    assert_eq!(&file[34..36], &16u16.to_le_bytes()); // bit depth
    assert_eq!(&file[36..40], b"data");
    assert_eq!(&file[40..44], &4u32.to_le_bytes());
    assert_eq!(&file[44..46], &1i16.to_le_bytes());
    assert_eq!(&file[46..48], &(-2i16).to_le_bytes());
}

#[test]
fn resample_identity_reproduces_input() {
    // Identity property: ratio 1.0 reproduces the input exactly.
    let mut rs = Resampler::new(48000, 48000);
    let input: Vec<i16> = (0..1000).map(|i| (i * 7 - 300) as i16).collect();
    let mut out = rs.push(input.clone());
    out.extend(rs.finish());
    assert_eq!(out, input);
}

#[test]
fn resample_identity_chunked() {
    let mut rs = Resampler::new(48000, 48000);
    let input: Vec<i16> = (0..3000).map(|i| (i % 251 - 125) as i16).collect();
    let mut out: Vec<i16> = Vec::new();
    for chunk in input.chunks(137) {
        out.extend(rs.push(chunk.to_vec()));
    }
    out.extend(rs.finish());
    assert_eq!(out, input);
}

#[test]
fn resample_output_count_across_rates() {
    // Two seconds of input at each native rate must yield an output count
    // within one sample of 2 * 48000.
    for &rate in &[8000u32, 16000, 22050, 44100, 48000, 96000, 192000] {
        let mut rs = Resampler::new(rate, 48000);
        let seconds = 2usize;
        let total = rate as usize * seconds;
        let mut produced = 0usize;
        let mut sent = 0usize;
        while sent < total {
            let n = (total - sent).min(441);
            let chunk: Vec<i16> = vec![100i16; n];
            produced += rs.push(chunk).len();
            sent += n;
        }
        produced += rs.finish().len();
        let expected = 48000 * seconds;
        assert!(
            (produced as i64 - expected as i64).abs() <= 1,
            "rate {}: produced {} expected {}",
            rate,
            produced,
            expected
        );
    }
}

#[test]
fn resample_downsample_by_two_picks_even_samples() {
    let mut rs = Resampler::new(96000, 48000);
    let input: Vec<i16> = (0..20).map(|i| (i * 10) as i16).collect();
    let mut out = rs.push(input.clone());
    out.extend(rs.finish());
    // Positions advance by two source samples per output.
    assert_eq!(out.len(), 10);
    for (k, &v) in out.iter().enumerate() {
        assert_eq!(v, input[2 * k]);
    }
}

#[test]
fn resample_upsample_by_two_interpolates_midpoints() {
    let mut rs = Resampler::new(24000, 48000);
    let mut out = rs.push(vec![0i16, 100i16]);
    out.extend(rs.finish());
    // Positions 0, 0.5, 1, 1.5 (the final one clamps to the last sample).
    assert_eq!(out, vec![0, 50, 100, 100]);
}

#[test]
fn mixdown_is_arithmetic_mean() {
    // Mixdown output equals the per-group arithmetic mean.
    let out = mix_to_mono(&vec![100i16, 200, -50, -70], 2);
    assert_eq!(out, vec![150, -60]);

    let out = mix_to_mono(&vec![3i16, 3, 3, 9, 9, 9], 3);
    assert_eq!(out, vec![3, 9]);

    // Negative means round downward, uniformly with positive ones.
    let out = mix_to_mono(&vec![0i16, -1], 2);
    assert_eq!(out, vec![-1]);
    let out = mix_to_mono(&vec![0i16, 1], 2);
    assert_eq!(out, vec![0]);
}

#[test]
fn mixdown_mono_passthrough() {
    let input: Vec<i16> = vec![5, -7, 32767, -32768, 0];
    let out = mix_to_mono(&input, 1);
    assert_eq!(out, input);
}

#[test]
fn mixdown_short_trailing_group_divides_by_channel_count() {
    // A trailing partial group is still divided by the channel count.
    let out = mix_to_mono(&vec![10i16, 20, 30], 2);
    assert_eq!(out.len(), 2);
    assert_eq!(out[0], 15);
    // (30 + 32768) / 2 - 32768
    assert_eq!(out[1] as i32, (30 + 32768) / 2 - 32768);
}

#[test]
fn container_round_trip_sizes() {
    // Writing N whole frames then finalizing: data-size field is
    // N * 960 * 2 and total size is data-size + 44.
    let n_frames = 5usize;
    let mut enc = Encoder::new(48000, 1, 100);
    let samples: Vec<i16> = vec![7i16; n_frames * FRAME_SIZE_SAMPLES];
    assert!(enc.push(samples).is_none());
    let file = enc.stop();
    let data_size = n_frames * FRAME_SIZE_SAMPLES * 2;
    assert_eq!(file.len(), 44 + data_size);
    let field = u32::from_le_bytes([file[40], file[41], file[42], file[43]]);
    assert_eq!(field as usize, data_size);
    let riff = u32::from_le_bytes([file[4], file[5], file[6], file[7]]);
    assert_eq!(riff as usize, data_size + 36);
}

#[test]
fn encoder_pads_final_partial_frame_with_zeros() {
    let mut enc = Encoder::new(48000, 1, 100);
    assert!(enc.push(vec![9i16; 100]).is_none());
    let file = enc.stop();
    // One whole zero-padded frame.
    assert_eq!(file.len(), 44 + FRAME_SIZE_SAMPLES * 2);
    for i in 0..100 {
        let off = 44 + 2 * i;
        assert_eq!(i16::from_le_bytes([file[off], file[off + 1]]), 9);
    }
    for i in 100..FRAME_SIZE_SAMPLES {
        let off = 44 + 2 * i;
        assert_eq!(i16::from_le_bytes([file[off], file[off + 1]]), 0);
    }
}

#[test]
fn encoder_empty_stop_gives_bare_header() {
    let enc = Encoder::new(48000, 1, 100);
    let file = enc.stop();
    assert_eq!(file.len(), 44);
    let field = u32::from_le_bytes([file[40], file[41], file[42], file[43]]);
    assert_eq!(field, 0);
}

#[test]
fn duration_cap_bounds_the_file() {
    // With a cap of D seconds, feeding samples indefinitely yields a file
    // of no more than ceil(D * 48000 / 960) * 960 samples, finalized on
    // its own.
    let d_seconds = 1u64;
    let max_frames = max_frames_for(d_seconds);
    assert_eq!(max_frames, 50);
    let mut enc = Encoder::new(48000, 1, max_frames);
    let mut finished: Option<Vec<u8>> = None;
    let mut pushed = 0usize;
    while finished.is_none() {
        finished = enc.push(vec![1i16; 480]);
        pushed += 480;
        assert!(pushed <= 52 * FRAME_SIZE_SAMPLES, "cap never triggered");
    }
    let file = finished.unwrap();
    let cap_samples = ((d_seconds as usize * 48000 + 959) / 960) * 960;
    let payload_samples = (file.len() - 44) / 2;
    assert!(payload_samples <= cap_samples);
    assert_eq!(payload_samples, max_frames * FRAME_SIZE_SAMPLES);
    let field = u32::from_le_bytes([file[40], file[41], file[42], file[43]]);
    assert_eq!(field as usize, payload_samples * 2);
}

#[test]
fn max_frames_for_derives_fifty_per_second() {
    assert_eq!(max_frames_for(0), 0);
    assert_eq!(max_frames_for(1), 50);
    assert_eq!(max_frames_for(5), 250);
    assert_eq!(max_frames_for(3600), 180000);
}

#[test]
fn session_second_start_is_refused() {
    // Two starts in immediate succession: one success, one
    // AlreadyRecording.
    let mut state: RecordingState<u32> = RecordingState::new();
    let first = state.start_session("rec/voice_1.wav".to_string(), 11);
    let second = state.start_session("rec/voice_2.wav".to_string(), 22);
    let ok = first.unwrap();
    assert_eq!(ok.output_path, "rec/voice_1.wav");
    assert_eq!(ok.sample_rate, 48000);
    assert_eq!(ok.channels, 1);
    assert_eq!(second.unwrap_err(), RecorderError::AlreadyRecording);
    // The failed start changed nothing.
    let status = get_recording_status(&state);
    assert!(status.is_recording);
    assert_eq!(status.output_path.as_deref(), Some("rec/voice_1.wav"));
}

#[test]
fn stop_before_start_is_refused() {
    let mut state: RecordingState<u32> = RecordingState::new();
    assert_eq!(state.stop_session().unwrap_err(), RecorderError::NotRecording);
    assert!(!get_recording_status(&state).is_recording);
}

#[test]
fn stop_returns_path_and_handle_and_clears_session() {
    let mut state: RecordingState<u32> = RecordingState::new();
    state.start_session("out/voice_9.wav".to_string(), 77).unwrap();
    let (path, handle) = state.stop_session().unwrap();
    assert_eq!(path, "out/voice_9.wav");
    assert_eq!(handle, 77);
    // The path is retained for status reads; the session is over.
    let status = get_recording_status(&state);
    assert!(!status.is_recording);
    assert_eq!(status.output_path.as_deref(), Some("out/voice_9.wav"));
    assert_eq!(state.stop_session().unwrap_err(), RecorderError::NotRecording);
}

#[test]
fn auto_stop_transitions_to_not_recording() {
    let mut state: RecordingState<u32> = RecordingState::new();
    state.start_session("out/voice_3.wav".to_string(), 5).unwrap();
    state.auto_stop();
    assert!(!get_recording_status(&state).is_recording);
    assert_eq!(state.stop_session().unwrap_err(), RecorderError::NotRecording);
}

#[test]
fn stopped_file_checks() {
    assert_eq!(
        check_stopped_file(false, 0).unwrap_err(),
        RecorderError::FileNotFound
    );
    assert_eq!(
        check_stopped_file(true, 99).unwrap_err(),
        RecorderError::FileTooSmall
    );
    assert!(check_stopped_file(true, 100).is_ok());
    assert!(check_stopped_file(true, 192044).is_ok());
}

#[test]
fn error_messages_are_short_and_human_readable() {
    assert_eq!(RecorderError::AlreadyRecording.message(), "Already recording");
    assert_eq!(RecorderError::NotRecording.message(), "Not recording");
    assert_eq!(
        RecorderError::NoInputDevice.message(),
        "No audio input device found"
    );
    assert_eq!(
        RecorderError::UnsupportedFormat.message(),
        "Unsupported sample format"
    );
}

#[test]
fn end_to_end_two_seconds_of_silence() {
    // start with a five-second cap, feed two seconds of 48 kHz mono
    // silence, stop: the file is 44 + 2 * 48000 * 2 bytes (the stream
    // divides into whole frames, so no padding is added).
    let mut state: RecordingState<u8> = RecordingState::new();
    let started = state
        .start_session("/tmp/rec/voice_0.wav".to_string(), 1)
        .unwrap();
    assert_eq!(started.sample_rate, 48000);
    assert_eq!(started.channels, 1);

    let mut rs = Resampler::new(48000, 48000);
    let mut enc = Encoder::new(48000, 1, max_frames_for(5));
    for _ in 0..200 {
        // 200 blocks of 480 samples = 96000 samples = 2 s
        let block = vec![0i16; 480];
        let mono = mix_to_mono(&block, 1);
        let converted = rs.push(mono);
        if !converted.is_empty() {
            let capped = enc.push(converted);
            assert!(capped.is_none());
        }
    }
    let (path, _handle) = state.stop_session().unwrap();
    assert_eq!(path, "/tmp/rec/voice_0.wav");
    let tail = rs.finish();
    if !tail.is_empty() {
        let capped = enc.push(tail);
        assert!(capped.is_none());
    }
    let file = enc.stop();
    assert_eq!(file.len(), 44 + 2 * 48000 * 2);
    assert!(!get_recording_status(&state).is_recording);
    assert!(check_stopped_file(true, file.len() as u64).is_ok());
}
