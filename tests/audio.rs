use kokoro_openai_server::audio::{
    create_wav_header_placeholder, encode_wav, samples_to_pcm_bytes, DEFAULT_SAMPLE_RATE,
};
use kokoro_openai_server::error::AppError;

#[test]
fn test_wav_header() {
    let header = create_wav_header_placeholder(24000, 16, 1);
    assert_eq!(header.len(), 44);

    // Check RIFF header
    assert_eq!(&header[0..4], b"RIFF");
    assert_eq!(&header[8..12], b"WAVE");

    // Check fmt chunk
    assert_eq!(&header[12..16], b"fmt ");

    // Check data chunk
    assert_eq!(&header[36..40], b"data");
}

#[test]
fn wav_header_fields() {
    let header = create_wav_header_placeholder(24000, 16, 1);
    assert_eq!(&header[4..8], &[0xFF, 0xFF, 0xFF, 0xFF]);
    assert_eq!(&header[16..20], &16u32.to_le_bytes());
    assert_eq!(&header[20..22], &1u16.to_le_bytes());
    assert_eq!(&header[22..24], &1u16.to_le_bytes());
    assert_eq!(&header[24..28], &24000u32.to_le_bytes());
    assert_eq!(&header[28..32], &48000u32.to_le_bytes());
    assert_eq!(&header[32..34], &2u16.to_le_bytes());
    assert_eq!(&header[34..36], &16u16.to_le_bytes());
    assert_eq!(&header[40..44], &[0xFF, 0xFF, 0xFF, 0xFF]);

    let stereo = create_wav_header_placeholder(44100, 16, 2);
    assert_eq!(&stereo[28..32], &176400u32.to_le_bytes());
    assert_eq!(&stereo[32..34], &4u16.to_le_bytes());
}

#[test]
fn test_samples_to_pcm_bytes() {
    let samples: Vec<i16> = vec![0, 16384, -16384, i16::MAX, i16::MIN];
    let bytes = samples_to_pcm_bytes(&samples);
    assert_eq!(bytes.len(), 10);
    assert_eq!(bytes[0..2], [0, 0]);
    assert_eq!(bytes[2..4], [0x00, 0x40]);
    assert_eq!(bytes[4..6], [0x00, 0xC0]);
    assert_eq!(bytes[6..8], i16::MAX.to_le_bytes());
    assert_eq!(bytes[8..10], i16::MIN.to_le_bytes());
}

#[test]
fn pcm_of_no_samples_is_empty() {
    assert!(samples_to_pcm_bytes(&[]).is_empty());
}

#[test]
fn wav_file_has_final_sizes_then_samples() {
    let bytes = encode_wav(&[0, 1, -1], DEFAULT_SAMPLE_RATE).unwrap();
    assert_eq!(bytes.len(), 50);
    assert_eq!(&bytes[0..4], b"RIFF");
    assert_eq!(&bytes[4..8], &42u32.to_le_bytes());
    assert_eq!(&bytes[8..16], b"WAVEfmt ");
    assert_eq!(&bytes[16..20], &16u32.to_le_bytes());
    assert_eq!(&bytes[20..22], &1u16.to_le_bytes());
    assert_eq!(&bytes[22..24], &1u16.to_le_bytes());
    assert_eq!(&bytes[24..28], &24000u32.to_le_bytes());
    assert_eq!(&bytes[28..32], &48000u32.to_le_bytes());
    assert_eq!(&bytes[32..34], &2u16.to_le_bytes());
    assert_eq!(&bytes[34..36], &16u16.to_le_bytes());
    assert_eq!(&bytes[36..40], b"data");
    assert_eq!(&bytes[40..44], &6u32.to_le_bytes());
    assert_eq!(&bytes[44..50], &[0, 0, 1, 0, 0xFF, 0xFF]);
}

#[test]
fn wav_file_header_matches_stream_header_but_sizes() {
    let file = encode_wav(&[], 24000).unwrap();
    let stream = create_wav_header_placeholder(24000, 16, 1);
    assert_eq!(file.len(), 44);
    assert_eq!(&file[8..36], &stream[8..36]);
    assert_eq!(&file[4..8], &36u32.to_le_bytes());
    assert!(!matches!(encode_wav(&[5], 8000), Err(AppError::Internal)));
    let one = encode_wav(&[5], 8000).unwrap();
    assert_eq!(u32::from_le_bytes([one[4], one[5], one[6], one[7]]) as usize, one.len() - 8);
}
