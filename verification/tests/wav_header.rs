use audiotools::wav_header::{WavHeader, WavHeaderError, HEADER_LEN};

fn header_bytes(chunk_size: u32, channels: u16, sample_rate: u32, bits: u16) -> Vec<u8> {
    let mut b = Vec::new();
    b.extend_from_slice(b"RIFF");
    b.extend_from_slice(&chunk_size.to_le_bytes());
    b.extend_from_slice(b"WAVE");
    b.extend_from_slice(b"fmt ");
    b.extend_from_slice(&16u32.to_le_bytes());
    b.extend_from_slice(&1u16.to_le_bytes());
    b.extend_from_slice(&channels.to_le_bytes());
    b.extend_from_slice(&sample_rate.to_le_bytes());
    let block_align = channels * (bits / 8);
    b.extend_from_slice(&sample_rate.wrapping_mul(block_align as u32).to_le_bytes());
    b.extend_from_slice(&block_align.to_le_bytes());
    b.extend_from_slice(&bits.to_le_bytes());
    b
}

#[test]
fn parses_fields_of_a_cd_quality_header() {
    let bytes = header_bytes(36 + 44100 * 4, 2, 44100, 16);
    assert_eq!(bytes.len(), HEADER_LEN);
    let h = WavHeader::parse(&bytes).unwrap();
    assert_eq!(h.sample_rate(), 44100);
    assert_eq!(h.num_channels(), 2);
    assert_eq!(h.bits_per_sample(), 16);
    assert_eq!(h.total_samples(), Some(44100));
}

#[test]
fn total_samples_rounds_down_partial_frames() {
    let h = WavHeader::parse(&header_bytes(36 + 10, 1, 8000, 24)).unwrap();
    assert_eq!(h.total_samples(), Some(3));
}

#[test]
fn total_samples_absent_when_chunk_size_below_header() {
    let h = WavHeader::parse(&header_bytes(35, 1, 8000, 16)).unwrap();
    assert_eq!(h.total_samples(), None);
}

#[test]
fn total_samples_absent_for_zero_byte_frames() {
    let h = WavHeader::parse(&header_bytes(1000, 1, 8000, 4)).unwrap();
    assert_eq!(h.total_samples(), None);
    let h = WavHeader::parse(&header_bytes(1000, 0, 8000, 16)).unwrap();
    assert_eq!(h.total_samples(), None);
}

#[test]
fn short_buffer_is_refused() {
    let bytes = header_bytes(100, 1, 8000, 16);
    assert_eq!(WavHeader::parse(&bytes[..35]).unwrap_err(), WavHeaderError::UnexpectedEof { len: 35 });
    assert!(WavHeader::parse(&[]).is_err());
}

#[test]
fn trailing_bytes_are_ignored() {
    let mut bytes = header_bytes(36 + 8, 1, 48000, 16);
    bytes.extend_from_slice(b"data\x08\x00\x00\x00");
    let h = WavHeader::parse(&bytes).unwrap();
    assert_eq!(h.sample_rate(), 48000);
    assert_eq!(h.total_samples(), Some(4));
}

#[test]
fn little_endian_byte_order_is_used() {
    let h = WavHeader::parse(&header_bytes(0x0102_0304, 0x0201, 0x0A0B_0C0D, 8)).unwrap();
    assert_eq!(h.sample_rate(), 0x0A0B_0C0D);
    assert_eq!(h.num_channels(), 0x0201);
}
