use wav_spectrum::{ByteCursor, WavError, WavReader};

/// A `fmt ` chunk body for PCM with a consistent byte rate and block align.
fn fmt_chunk(channels: u16, sample_rate: u32, bits_per_sample: u16) -> Vec<u8> {
    let byte_rate = sample_rate * channels as u32 * bits_per_sample as u32 / 8;
    let block_align = channels * bits_per_sample / 8;
    fmt_chunk_raw(channels, sample_rate, byte_rate, block_align, bits_per_sample)
}

/// A `fmt ` chunk (tag, size 16, PCM compression) with the fields as given.
fn fmt_chunk_raw(
    channels: u16,
    sample_rate: u32,
    byte_rate: u32,
    block_align: u16,
    bits_per_sample: u16,
) -> Vec<u8> {
    let mut v = Vec::new();
    v.extend_from_slice(b"fmt ");
    v.extend_from_slice(&16u32.to_le_bytes());
    v.extend_from_slice(&1u16.to_le_bytes());
    v.extend_from_slice(&channels.to_le_bytes());
    v.extend_from_slice(&sample_rate.to_le_bytes());
    v.extend_from_slice(&byte_rate.to_le_bytes());
    v.extend_from_slice(&block_align.to_le_bytes());
    v.extend_from_slice(&bits_per_sample.to_le_bytes());
    v
}

/// A whole file: RIFF/WAVE envelope, the given chunks, then a data chunk.
fn wav_file(chunks: &[Vec<u8>], data: &[u8]) -> Vec<u8> {
    let mut v = Vec::new();
    v.extend_from_slice(b"RIFF");
    v.extend_from_slice(&100u32.to_le_bytes());
    v.extend_from_slice(b"WAVE");
    for c in chunks {
        v.extend_from_slice(c);
    }
    v.extend_from_slice(b"data");
    v.extend_from_slice(&(data.len() as u32).to_le_bytes());
    v.extend_from_slice(data);
    v
}

#[test]
fn test_parse_happy_path() {
    let data: Vec<u8> = [3i16, 5, -1, 7].iter().flat_map(|s| s.to_le_bytes()).collect();
    let bytes = wav_file(&[fmt_chunk(2, 8, 16)], &data);
    let reader = WavReader::new(ByteCursor::new(bytes)).unwrap();
    let config = reader.config();
    assert_eq!(config.fmt().channels, 2);
    assert_eq!(config.fmt().sample_rate, 8);
    assert_eq!(config.fmt().byte_rate, 32);
    assert_eq!(config.fmt().block_align, 4);
    assert_eq!(config.fmt().bits_per_sample, 16);
    assert_eq!(config.samples, 4);
    assert_eq!(config.bytes_per_sample, 2);
    assert_eq!(reader.size(), 8);
}

#[test]
fn test_mono_integer_average() {
    // Two channels, two frames (3,5) and (-1,7): averages 4 and 3.
    let data: Vec<u8> = [3i16, 5, -1, 7].iter().flat_map(|s| s.to_le_bytes()).collect();
    let bytes = wav_file(&[fmt_chunk(2, 8, 16)], &data);
    let mut reader = WavReader::new(ByteCursor::new(bytes)).unwrap();
    assert_eq!(reader.mono().unwrap(), vec![4, 3]);
}

#[test]
fn test_mono_single_channel_24_bit() {
    let data = [0x00u8, 0x00, 0x80, 0xFF, 0xFF, 0x7F];
    let bytes = wav_file(&[fmt_chunk(1, 1000, 24)], &data);
    let mut reader = WavReader::new(ByteCursor::new(bytes)).unwrap();
    assert_eq!(reader.mono().unwrap(), vec![-8388608, 8388607]);
}

#[test]
fn test_mono_single_channel_32_bit() {
    let data = [0x00u8, 0x00, 0x00, 0x80, 0xFF, 0xFF, 0xFF, 0x7F];
    let bytes = wav_file(&[fmt_chunk(1, 44100, 32)], &data);
    let mut reader = WavReader::new(ByteCursor::new(bytes)).unwrap();
    assert_eq!(reader.mono().unwrap(), vec![-2147483648, 2147483647]);
}

#[test]
fn test_mono_truncates_toward_zero() {
    // Frame (-1, -2): sum -3, averaged over 2 channels gives -1, not -2.
    let data: Vec<u8> = [-1i16, -2].iter().flat_map(|s| s.to_le_bytes()).collect();
    let bytes = wav_file(&[fmt_chunk(2, 8, 16)], &data);
    let mut reader = WavReader::new(ByteCursor::new(bytes)).unwrap();
    assert_eq!(reader.mono().unwrap(), vec![-1]);
}

#[test]
fn test_bad_riff_magic() {
    let mut bytes = wav_file(&[fmt_chunk(2, 8, 16)], &[0u8; 4]);
    bytes[0..4].copy_from_slice(b"RIFX");
    let result = WavReader::new(ByteCursor::new(bytes));
    assert!(matches!(result, Err(WavError::InvalidFormat(_))));
}

#[test]
fn test_bad_wave_magic() {
    let mut bytes = wav_file(&[fmt_chunk(2, 8, 16)], &[0u8; 4]);
    bytes[8..12].copy_from_slice(b"WAVX");
    let result = WavReader::new(ByteCursor::new(bytes));
    assert!(matches!(result, Err(WavError::InvalidFormat(_))));
}

#[test]
fn test_data_before_fmt() {
    let bytes = wav_file(&[], &[0u8; 4]);
    let result = WavReader::new(ByteCursor::new(bytes));
    assert!(matches!(result, Err(WavError::InvalidFormat(_))));
}

#[test]
fn test_unknown_chunk_tag() {
    let mut junk = Vec::new();
    junk.extend_from_slice(b"LIST");
    junk.extend_from_slice(&4u32.to_le_bytes());
    junk.extend_from_slice(&[0u8; 4]);
    let bytes = wav_file(&[junk, fmt_chunk(2, 8, 16)], &[0u8; 4]);
    let result = WavReader::new(ByteCursor::new(bytes));
    assert!(matches!(result, Err(WavError::InvalidFormat(_))));
}

#[test]
fn test_byte_rate_mismatch() {
    // Consistent byte rate would be 32.
    let bytes = wav_file(&[fmt_chunk_raw(2, 8, 33, 4, 16)], &[0u8; 4]);
    let result = WavReader::new(ByteCursor::new(bytes));
    assert!(matches!(result, Err(WavError::Corrupted(_))));
}

#[test]
fn test_block_align_mismatch() {
    // Consistent block align would be 4.
    let bytes = wav_file(&[fmt_chunk_raw(2, 8, 32, 5, 16)], &[0u8; 4]);
    let result = WavReader::new(ByteCursor::new(bytes));
    assert!(matches!(result, Err(WavError::Corrupted(_))));
}

#[test]
fn test_zero_channels() {
    let bytes = wav_file(&[fmt_chunk_raw(0, 8, 0, 0, 16)], &[0u8; 4]);
    let result = WavReader::new(ByteCursor::new(bytes));
    assert!(matches!(result, Err(WavError::Corrupted(_))));
}

#[test]
fn test_non_pcm_compression() {
    let mut chunk = fmt_chunk(2, 8, 16);
    chunk[8..10].copy_from_slice(&2u16.to_le_bytes());
    let bytes = wav_file(&[chunk], &[0u8; 4]);
    let result = WavReader::new(ByteCursor::new(bytes));
    assert!(matches!(result, Err(WavError::UnsupportedFormat(_))));
}

#[test]
fn test_fmt_chunk_too_small() {
    let mut chunk = fmt_chunk(2, 8, 16);
    chunk[4..8].copy_from_slice(&15u32.to_le_bytes());
    let bytes = wav_file(&[chunk], &[0u8; 4]);
    let result = WavReader::new(ByteCursor::new(bytes));
    assert!(matches!(result, Err(WavError::Corrupted(_))));
}

#[test]
fn test_truncated_file_is_io_error() {
    let mut bytes = wav_file(&[fmt_chunk(2, 8, 16)], &[0u8; 4]);
    bytes.truncate(20);
    let result = WavReader::new(ByteCursor::new(bytes));
    assert!(matches!(result, Err(WavError::Io(_))));
}

#[test]
fn test_unsupported_bit_depth() {
    // 8-bit PCM passes the fmt cross-checks but cannot be decoded.
    let bytes = wav_file(&[fmt_chunk(1, 8, 8)], &[0u8; 4]);
    let mut reader = WavReader::new(ByteCursor::new(bytes)).unwrap();
    let result = reader.mono();
    assert!(matches!(result, Err(WavError::UnsupportedFormat(_))));
}

#[test]
fn test_zero_bits_per_sample() {
    let bytes = wav_file(&[fmt_chunk_raw(1, 8, 0, 0, 0)], &[0u8; 4]);
    let result = WavReader::new(ByteCursor::new(bytes));
    assert!(matches!(result, Err(WavError::UnsupportedFormat(_))));
}

#[test]
fn test_uneven_samples_per_channel() {
    // Six data bytes of 16-bit samples over two channels: three samples,
    // which do not split evenly.
    let bytes = wav_file(&[fmt_chunk(2, 8, 16)], &[0u8; 6]);
    let result = WavReader::new(ByteCursor::new(bytes));
    assert!(matches!(result, Err(WavError::Corrupted(_))));
}

#[test]
fn test_short_data_chunk_is_io_error() {
    // The data chunk declares 8 bytes but only 4 follow.
    let mut bytes = wav_file(&[fmt_chunk(2, 8, 16)], &[0u8; 8]);
    bytes.truncate(bytes.len() - 4);
    let mut reader = WavReader::new(ByteCursor::new(bytes)).unwrap();
    let result = reader.mono();
    assert!(matches!(result, Err(WavError::Io(_))));
}

#[test]
fn test_last_fmt_chunk_wins() {
    let bytes = wav_file(&[fmt_chunk(1, 1000, 24), fmt_chunk(2, 8, 16)], &[0u8; 4]);
    let reader = WavReader::new(ByteCursor::new(bytes)).unwrap();
    assert_eq!(reader.config().fmt().channels, 2);
    assert_eq!(reader.config().fmt().sample_rate, 8);
    assert_eq!(reader.config().fmt().bits_per_sample, 16);
}

#[test]
fn test_duration_whole_seconds() {
    // Eight samples over two channels at two frames per second: two seconds.
    let bytes = wav_file(&[fmt_chunk(2, 2, 16)], &[0u8; 16]);
    let reader = WavReader::new(ByteCursor::new(bytes)).unwrap();
    assert_eq!(reader.config().duration(), 2);
}

#[test]
fn test_duration_floors_fraction() {
    // Six frames at four frames per second: 1.5 seconds, floored to 1.
    let bytes = wav_file(&[fmt_chunk(2, 4, 16)], &[0u8; 24]);
    let reader = WavReader::new(ByteCursor::new(bytes)).unwrap();
    assert_eq!(reader.config().duration(), 1);
}

#[test]
fn test_empty_data_chunk() {
    let bytes = wav_file(&[fmt_chunk(2, 8, 16)], &[]);
    let mut reader = WavReader::new(ByteCursor::new(bytes)).unwrap();
    assert_eq!(reader.mono().unwrap(), Vec::<i32>::new());
}

#[test]
fn test_error_message_is_kept() {
    let bytes = wav_file(&[], &[0u8; 4]);
    match WavReader::new(ByteCursor::new(bytes)) {
        Err(e) => assert_eq!(e.message(), "WAVE \"fmt \" not present"),
        Ok(_) => panic!("a file without fmt must be rejected"),
    }
}
