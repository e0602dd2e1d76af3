use std::io::Cursor;
use voice_core::wav::encode_wav;

// Encoding and decoding with an independent reader round-trips the samples
// and the advertised format: mono, 16-bit, 16 kHz.
#[test]
fn container_round_trip() {
    let samples: Vec<i16> = vec![0, 1000, -1000, 32767, -32768];
    let bytes = encode_wav(&samples).unwrap();
    let mut reader = hound::WavReader::new(Cursor::new(bytes)).unwrap();
    let spec = reader.spec();
    assert_eq!(spec.channels, 1);
    assert_eq!(spec.sample_rate, 16000);
    assert_eq!(spec.bits_per_sample, 16);
    assert_eq!(spec.sample_format, hound::SampleFormat::Int);
    let decoded: Vec<i16> = reader.samples::<i16>().map(|s| s.unwrap()).collect();
    assert_eq!(decoded, samples);
}

#[test]
fn header_layout_is_canonical() {
    let samples: Vec<i16> = vec![258, -1];
    let bytes = encode_wav(&samples).unwrap();
    assert_eq!(bytes.len(), 48);
    assert_eq!(&bytes[0..4], b"RIFF");
    // RIFF chunk size: 36 + 2 * 2 samples.
    assert_eq!(&bytes[4..8], &40u32.to_le_bytes());
    assert_eq!(&bytes[8..12], b"WAVE");
    assert_eq!(&bytes[12..16], b"fmt ");
    assert_eq!(&bytes[16..20], &16u32.to_le_bytes());
    // PCM, one channel.
    assert_eq!(&bytes[20..22], &1u16.to_le_bytes());
    assert_eq!(&bytes[22..24], &1u16.to_le_bytes());
    assert_eq!(&bytes[24..28], &16000u32.to_le_bytes());
    assert_eq!(&bytes[28..32], &32000u32.to_le_bytes());
    // Block align and bits per sample.
    assert_eq!(&bytes[32..34], &2u16.to_le_bytes());
    assert_eq!(&bytes[34..36], &16u16.to_le_bytes());
    assert_eq!(&bytes[36..40], b"data");
    assert_eq!(&bytes[40..44], &4u32.to_le_bytes());
    // 258 is 0x0102 little-endian; -1 is 0xFFFF.
    assert_eq!(&bytes[44..48], &[0x02, 0x01, 0xFF, 0xFF]);
}

#[test]
fn empty_recording_encodes_to_bare_header() {
    let samples: Vec<i16> = vec![];
    let bytes = encode_wav(&samples).unwrap();
    assert_eq!(bytes.len(), 44);
    let mut reader = hound::WavReader::new(Cursor::new(bytes)).unwrap();
    assert_eq!(reader.samples::<i16>().count(), 0);
}
