use padfx::audio_files::{
    decode_mp3, mp3_buffer, wav_integer_samples, wav_layout, wav_layout_of, Mp3Frame, WavError,
    WavHeader, WavLayout, WavSampleKind,
};

fn wav_bytes(format_tag: u16, channels: u16, rate: u32, bits: u16, data: &[u8]) -> Vec<u8> {
    let block_align = channels * (bits / 8);
    let mut out = Vec::new();
    out.extend_from_slice(b"RIFF");
    out.extend_from_slice(&(36 + data.len() as u32).to_le_bytes());
    out.extend_from_slice(b"WAVE");
    out.extend_from_slice(b"fmt ");
    out.extend_from_slice(&16u32.to_le_bytes());
    out.extend_from_slice(&format_tag.to_le_bytes());
    out.extend_from_slice(&channels.to_le_bytes());
    out.extend_from_slice(&rate.to_le_bytes());
    out.extend_from_slice(&(rate * block_align as u32).to_le_bytes());
    out.extend_from_slice(&block_align.to_le_bytes());
    out.extend_from_slice(&bits.to_le_bytes());
    out.extend_from_slice(b"data");
    out.extend_from_slice(&(data.len() as u32).to_le_bytes());
    out.extend_from_slice(data);
    out
}

fn pcm16(samples: &[i16]) -> Vec<u8> {
    samples.iter().flat_map(|s| s.to_le_bytes()).collect()
}

#[test]
fn wav_16_bit_layout_and_samples() {
    let bytes = wav_bytes(1, 2, 44100, 16, &pcm16(&[1, -2, 300, -32768]));
    let layout = wav_layout(&bytes).unwrap();
    assert_eq!(layout, WavLayout { kind: WavSampleKind::Int16, channels: 2, sample_rate: 44100 });
    assert_eq!(wav_integer_samples(&bytes).unwrap(), vec![1, -2, 300, -32768]);
}

#[test]
fn wav_24_bit_layout_and_samples() {
    let data: Vec<u8> = [8388607i32, -8388608, 5]
        .iter()
        .flat_map(|s| s.to_le_bytes()[..3].to_vec())
        .collect();
    let bytes = wav_bytes(1, 1, 48000, 24, &data);
    let layout = wav_layout(&bytes).unwrap();
    assert_eq!(layout, WavLayout { kind: WavSampleKind::Int24, channels: 1, sample_rate: 48000 });
    assert_eq!(wav_integer_samples(&bytes).unwrap(), vec![8388607, -8388608, 5]);
}

#[test]
fn wav_float_layout() {
    let data: Vec<u8> = [0.5f32, -0.25].iter().flat_map(|s| s.to_le_bytes()).collect();
    let bytes = wav_bytes(3, 1, 22050, 32, &data);
    let layout = wav_layout(&bytes).unwrap();
    assert_eq!(layout, WavLayout { kind: WavSampleKind::Float, channels: 1, sample_rate: 22050 });
}

#[test]
fn wav_8_bit_is_refused_with_its_depth() {
    let bytes = wav_bytes(1, 1, 8000, 8, &[128, 129]);
    assert!(matches!(wav_layout(&bytes), Err(WavError::BitDepth(8))));
}

#[test]
fn wav_without_header_is_refused() {
    match wav_layout(b"not a wave file") {
        Err(WavError::Header(msg)) => assert!(!msg.is_empty()),
        other => panic!("unexpected {:?}", other),
    }
}

#[test]
fn wav_layout_from_header_outcome() {
    let h = WavHeader { is_float: false, bits_per_sample: 32, channels: 2, sample_rate: 96000 };
    assert_eq!(
        wav_layout_of(Ok(h)).unwrap(),
        WavLayout { kind: WavSampleKind::Int32, channels: 2, sample_rate: 96000 }
    );
    let f = WavHeader { is_float: true, bits_per_sample: 64, channels: 1, sample_rate: 44100 };
    assert_eq!(wav_layout_of(Ok(f)).unwrap().kind, WavSampleKind::Float);
    let odd = WavHeader { is_float: false, bits_per_sample: 12, channels: 1, sample_rate: 44100 };
    assert!(matches!(wav_layout_of(Ok(odd)), Err(WavError::BitDepth(12))));
    match wav_layout_of(Err("broken".to_string())) {
        Err(WavError::Header(msg)) => assert_eq!(msg, "broken"),
        other => panic!("unexpected {:?}", other),
    }
}

fn frame(data: Vec<i16>, sample_rate: i32, channels: usize) -> Mp3Frame {
    Mp3Frame { data, sample_rate, channels }
}

#[test]
fn mp3_frames_concatenate_in_order() {
    let frames = vec![frame(vec![1, 2], 44100, 2), frame(vec![3], 48000, 1), frame(vec![4, 5], 44100, 2)];
    let b = mp3_buffer(&frames);
    assert_eq!(b.samples, vec![1, 2, 3, 4, 5]);
    assert_eq!(b.channels, 2);
    assert_eq!(b.sample_rate, 44100);
}

#[test]
fn mp3_format_waits_for_a_frame_with_channels() {
    let frames = vec![frame(vec![], 8000, 0), frame(vec![7], 32000, 1), frame(vec![8], 44100, 2)];
    let b = mp3_buffer(&frames);
    assert_eq!(b.samples, vec![7, 8]);
    assert_eq!(b.channels, 1);
    assert_eq!(b.sample_rate, 32000);
}

#[test]
fn mp3_no_frames_is_an_empty_buffer() {
    let b = mp3_buffer(&Vec::new());
    assert!(b.samples.is_empty());
    assert_eq!((b.channels, b.sample_rate), (0, 0));
}

#[test]
fn mp3_empty_input_decodes_to_nothing() {
    let b = decode_mp3(&[]).unwrap();
    assert!(b.samples.is_empty());
    assert_eq!((b.channels, b.sample_rate), (0, 0));
}

#[test]
fn mp3_silent_frames_decode() {
    // MPEG-1 Layer III, 128 kb/s, 44.1 kHz, stereo: 417-byte frames of silence.
    let mut bytes = Vec::new();
    for _ in 0..12 {
        bytes.extend_from_slice(&[0xFF, 0xFB, 0x90, 0x00]);
        bytes.extend_from_slice(&[0u8; 413]);
    }
    let b = decode_mp3(&bytes).unwrap();
    assert_eq!(b.channels, 2);
    assert_eq!(b.sample_rate, 44100);
    assert!(!b.samples.is_empty());
    assert_eq!(b.samples.len() % 2304, 0);
    assert!(b.samples.iter().all(|&s| s == 0));
}
