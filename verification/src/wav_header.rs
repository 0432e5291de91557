//! The canonical 36-byte prefix of a RIFF/WAVE file (the RIFF chunk header and
//! the `fmt ` sub-chunk), decoded from raw bytes.

use byteorder::{ByteOrder, LittleEndian};
use vstd::prelude::*;

verus! {

/// Number of bytes that make up the header fields read by [`WavHeader::parse`].
pub const HEADER_LEN: usize = 36;

/// The value of two bytes read as a little-endian unsigned integer.
pub open spec fn le_u16_value(b0: u8, b1: u8) -> int {
    b0 + 256 * b1
}

/// The value of four bytes read as a little-endian unsigned integer.
pub open spec fn le_u32_value(b0: u8, b1: u8, b2: u8, b3: u8) -> int {
    b0 + 256 * b1 + 65536 * b2 + 16777216 * b3
}

/// The little-endian `u16` stored at `off` in `bytes`.
pub open spec fn le_u16_at(bytes: Seq<u8>, off: int) -> int {
    le_u16_value(bytes[off], bytes[off + 1])
}

/// The little-endian `u32` stored at `off` in `bytes`.
pub open spec fn le_u32_at(bytes: Seq<u8>, off: int) -> int {
    le_u32_value(bytes[off], bytes[off + 1], bytes[off + 2], bytes[off + 3])
}

/// `byteorder`'s `LittleEndian::read_u16`: the first two bytes of `buf` read as a
/// little-endian `u16` (the crate panics on a shorter slice, which `requires` rules out).
#[verifier::external_body]
fn read_u16_le(buf: &[u8]) -> (r: u16)
    requires
        buf@.len() >= 2,
    ensures
        r == le_u16_value(buf@[0], buf@[1]),
{
    LittleEndian::read_u16(buf)
}

/// `byteorder`'s `LittleEndian::read_u32`: the first four bytes of `buf` read as a
/// little-endian `u32` (the crate panics on a shorter slice, which `requires` rules out).
#[verifier::external_body]
fn read_u32_le(buf: &[u8]) -> (r: u32)
    requires
        buf@.len() >= 4,
    ensures
        r == le_u32_value(buf@[0], buf@[1], buf@[2], buf@[3]),
{
    LittleEndian::read_u32(buf)
}

/// Why a byte buffer could not be decoded as a WAV header.
#[derive(Debug, Clone, Copy, PartialEq, Eq)]
pub enum WavHeaderError {
    /// The buffer ended before all header fields were read; `len` is its length.
    UnexpectedEof { len: usize },
}

/// The fields of a canonical WAV header, in file order.
#[derive(Debug, Clone, Copy)]
pub struct WavHeader {
    chunk_id: [u8; 4],
    chunk_size: u32,
    format: [u8; 4],
    subchunk1_id: [u8; 4],
    subchunk1_size: u32,
    audio_format: u16,
    num_channels: u16,
    sample_rate: u32,
    byte_rate: u32,
    block_align: u16,
    bits_per_sample: u16,
}

/// The number of sample frames announced by a header: the RIFF chunk size minus
/// the 36 bytes that precede the data, divided by the bytes per frame; `None`
/// when the chunk size is below 36 or a frame has zero bytes.
pub open spec fn total_samples_of(chunk_size: u32, num_channels: u16, bits_per_sample: u16) -> Option<u64> {
    if chunk_size < 36 {
        None
    } else if num_channels * (bits_per_sample / 8) == 0 {
        None
    } else {
        Some(((chunk_size - 36) / (num_channels * (bits_per_sample / 8))) as u64)
    }
}

impl WavHeader {
    /// The RIFF chunk size field.
    pub closed spec fn spec_chunk_size(&self) -> u32 {
        self.chunk_size
    }

    /// The audio format field (1 for PCM).
    pub closed spec fn spec_audio_format(&self) -> u16 {
        self.audio_format
    }

    /// The byte rate field.
    pub closed spec fn spec_byte_rate(&self) -> u32 {
        self.byte_rate
    }

    /// The block alignment field.
    pub closed spec fn spec_block_align(&self) -> u16 {
        self.block_align
    }

    /// The `fmt ` sub-chunk size field.
    pub closed spec fn spec_subchunk1_size(&self) -> u32 {
        self.subchunk1_size
    }

    /// The four tag fields: RIFF chunk id, format, and `fmt ` sub-chunk id.
    pub closed spec fn spec_tags(&self) -> (Seq<u8>, Seq<u8>, Seq<u8>) {
        (self.chunk_id@, self.format@, self.subchunk1_id@)
    }

    /// The sample rate field.
    pub closed spec fn spec_sample_rate(&self) -> u32 {
        self.sample_rate
    }

    /// The bits-per-sample field.
    pub closed spec fn spec_bits_per_sample(&self) -> u16 {
        self.bits_per_sample
    }

    /// The channel count field.
    pub closed spec fn spec_num_channels(&self) -> u16 {
        self.num_channels
    }

    /// `self` holds exactly the fields stored in the first 36 bytes of `bytes`.
    pub open spec fn decoded_from(&self, bytes: Seq<u8>) -> bool {
        &&& bytes.len() >= 36
        &&& self.spec_tags() == (bytes.subrange(0, 4), bytes.subrange(8, 12), bytes.subrange(12, 16))
        &&& self.spec_chunk_size() == le_u32_at(bytes, 4)
        &&& self.spec_subchunk1_size() == le_u32_at(bytes, 16)
        &&& self.spec_audio_format() == le_u16_at(bytes, 20)
        &&& self.spec_num_channels() == le_u16_at(bytes, 22)
        &&& self.spec_sample_rate() == le_u32_at(bytes, 24)
        &&& self.spec_byte_rate() == le_u32_at(bytes, 28)
        &&& self.spec_block_align() == le_u16_at(bytes, 32)
        &&& self.spec_bits_per_sample() == le_u16_at(bytes, 34)
    }

    /// Decodes the header fields from the start of `bytes`.
    ///
    /// Fails exactly when `bytes` is shorter than [`HEADER_LEN`]; no field is
    /// checked against the values a valid WAV file would hold.
    pub fn parse(bytes: &[u8]) -> (r: Result<WavHeader, WavHeaderError>)
        ensures
            bytes@.len() < 36 <==> r is Err,
            r matches Err(e) ==> e == (WavHeaderError::UnexpectedEof { len: bytes@.len() as usize }),
            r matches Ok(h) ==> h.decoded_from(bytes@),
    {
        if bytes.len() < HEADER_LEN {
            return Err(WavHeaderError::UnexpectedEof { len: bytes.len() });
        }
        let chunk_id = [bytes[0], bytes[1], bytes[2], bytes[3]];
        let chunk_size = read_u32_le(vstd::slice::slice_subrange(bytes, 4, 8));
        let format = [bytes[8], bytes[9], bytes[10], bytes[11]];
        let subchunk1_id = [bytes[12], bytes[13], bytes[14], bytes[15]];
        let subchunk1_size = read_u32_le(vstd::slice::slice_subrange(bytes, 16, 20));
        let audio_format = read_u16_le(vstd::slice::slice_subrange(bytes, 20, 22));
        let num_channels = read_u16_le(vstd::slice::slice_subrange(bytes, 22, 24));
        let sample_rate = read_u32_le(vstd::slice::slice_subrange(bytes, 24, 28));
        let byte_rate = read_u32_le(vstd::slice::slice_subrange(bytes, 28, 32));
        let block_align = read_u16_le(vstd::slice::slice_subrange(bytes, 32, 34));
        let bits_per_sample = read_u16_le(vstd::slice::slice_subrange(bytes, 34, 36));
        let h = WavHeader {
            chunk_id,
            chunk_size,
            format,
            subchunk1_id,
            subchunk1_size,
            audio_format,
            num_channels,
            sample_rate,
            byte_rate,
            block_align,
            bits_per_sample,
        };
        assert(h.chunk_id@ =~= bytes@.subrange(0, 4));
        assert(h.format@ =~= bytes@.subrange(8, 12));
        assert(h.subchunk1_id@ =~= bytes@.subrange(12, 16));
        Ok(h)
    }

    /// The sample rate in Hz.
    #[verifier::when_used_as_spec(spec_sample_rate)]
    pub fn sample_rate(&self) -> (r: u32)
        ensures
            r == self.spec_sample_rate(),
    {
        self.sample_rate
    }

    /// The number of bits per sample.
    #[verifier::when_used_as_spec(spec_bits_per_sample)]
    pub fn bits_per_sample(&self) -> (r: u16)
        ensures
            r == self.spec_bits_per_sample(),
    {
        self.bits_per_sample
    }

    /// The number of interleaved channels.
    #[verifier::when_used_as_spec(spec_num_channels)]
    pub fn num_channels(&self) -> (r: u16)
        ensures
            r == self.spec_num_channels(),
    {
        self.num_channels
    }

    /// The number of sample frames in the data chunk, assuming the data chunk
    /// directly follows a canonical 44-byte header.
    pub fn total_samples(&self) -> (r: Option<u64>)
        ensures
            r == total_samples_of(self.spec_chunk_size(), self.spec_num_channels(), self.spec_bits_per_sample()),
    {
        let data_size = match self.chunk_size.checked_sub(36) {
            Some(d) => d,
            None => return None,
        };
        let bytes_per_sample_per_channel = self.bits_per_sample as u32 / 8;
        assert(self.num_channels as u32 * bytes_per_sample_per_channel <= 65535 * 8191) by (nonlinear_arith)
            requires
                self.num_channels <= 65535,
                bytes_per_sample_per_channel <= 8191,
        ;
        let bytes_per_frame = self.num_channels as u32 * bytes_per_sample_per_channel;
        if bytes_per_frame == 0 {
            None
        } else {
            Some((data_size / bytes_per_frame) as u64)
        }
    }
}

} // verus!
