use vstd::prelude::*;
use crate::error::{AppError, AppErrorModel};

verus! {

// Sample-to-wire encoders: 16-bit little-endian PCM and the RIFF/WAVE header.

/// Sample rate of the synthesis engine's output, in Hz.
pub const DEFAULT_SAMPLE_RATE: u32 = 24000;

/// Sentinel written into both size fields of a header whose final length is unknown.
pub const UNKNOWN_SIZE: u32 = 0xFFFF_FFFF;

/// Little-endian bytes of a 16-bit unsigned value.
pub open spec fn le16(x: u16) -> Seq<u8> {
    seq![(x % 256) as u8, (x / 256) as u8]
}

/// Little-endian bytes of a 32-bit unsigned value.
pub open spec fn le32(x: u32) -> Seq<u8> {
    seq![
        (x % 256) as u8,
        ((x / 256) % 256) as u8,
        ((x / 65536) % 256) as u8,
        (x / 16777216) as u8,
    ]
}

/// The two's-complement bit pattern of a signed sample, as an unsigned value.
pub open spec fn sample_bits(s: i16) -> u16 {
    if s >= 0 {
        s as u16
    } else {
        (s + 65536) as u16
    }
}

/// Little-endian bytes of every sample, in order.
pub open spec fn pcm_bytes(samples: Seq<i16>) -> Seq<u8>
    decreases samples.len(),
{
    if samples.len() == 0 {
        seq![]
    } else {
        pcm_bytes(samples.drop_last()) + le16(sample_bits(samples.last()))
    }
}

/// The four ASCII bytes of a chunk tag.
pub open spec fn tag(a: char, b: char, c: char, d: char) -> Seq<u8> {
    seq![a as u8, b as u8, c as u8, d as u8]
}

/// Bytes of a canonical 44-byte PCM WAVE header.
pub open spec fn wav_header(
    sample_rate: u32,
    bits_per_sample: u16,
    num_channels: u16,
    riff_size: u32,
    data_size: u32,
) -> Seq<u8> {
    let byte_rate = (sample_rate * num_channels * (bits_per_sample / 8)) as u32;
    let block_align = (num_channels * (bits_per_sample / 8)) as u16;
    tag('R', 'I', 'F', 'F') + le32(riff_size) + tag('W', 'A', 'V', 'E') + tag('f', 'm', 't', ' ')
        + le32(16) + le16(1) + le16(num_channels) + le32(sample_rate) + le32(byte_rate) + le16(
        block_align,
    ) + le16(bits_per_sample) + tag('d', 'a', 't', 'a') + le32(data_size)
}

fn push_le16(out: &mut Vec<u8>, x: u16)
    ensures
        final(out)@ == old(out)@ + le16(x),
{
    out.push((x % 256) as u8);
    out.push((x / 256) as u8);
}

fn push_le32(out: &mut Vec<u8>, x: u32)
    ensures
        final(out)@ == old(out)@ + le32(x),
{
    out.push((x % 256) as u8);
    out.push(((x / 256) % 256) as u8);
    out.push(((x / 65536) % 256) as u8);
    out.push((x / 16777216) as u8);
}

fn push_tag(out: &mut Vec<u8>, a: char, b: char, c: char, d: char)
    requires
        (a as u32) < 128,
        (b as u32) < 128,
        (c as u32) < 128,
        (d as u32) < 128,
    ensures
        final(out)@ == old(out)@ + tag(a, b, c, d),
{
    out.push(a as u8);
    out.push(b as u8);
    out.push(c as u8);
    out.push(d as u8);
}

proof fn lemma_pcm_len(samples: Seq<i16>)
    ensures
        pcm_bytes(samples).len() == 2 * samples.len(),
    decreases samples.len(),
{
    if samples.len() > 0 {
        lemma_pcm_len(samples.drop_last());
    }
}

/// Encodes samples as 16-bit little-endian PCM, two bytes per sample.
pub fn samples_to_pcm_bytes(samples: &[i16]) -> (r: Vec<u8>)
    ensures
        r@ == pcm_bytes(samples@),
        r@.len() == 2 * samples@.len(),
{
    let mut bytes: Vec<u8> = Vec::new();
    let mut i: usize = 0;
    while i < samples.len()
        invariant
            i <= samples@.len(),
            bytes@ == pcm_bytes(samples@.subrange(0, i as int)),
        decreases samples.len() - i,
    {
        let s = samples[i];
        let bits: u16 = if s >= 0 {
            s as u16
        } else {
            (s as i32 + 65536) as u16
        };
        push_le16(&mut bytes, bits);
        proof {
            assert(samples@.subrange(0, i + 1).drop_last() =~= samples@.subrange(0, i as int));
        }
        i += 1;
    }
    proof {
        assert(samples@.subrange(0, samples@.len() as int) =~= samples@);
        lemma_pcm_len(samples@);
    }
    bytes
}

/// Builds the 44-byte header that opens a WAVE stream whose total length is
/// not known up front: both size fields hold the all-ones sentinel.
pub fn create_wav_header_placeholder(
    sample_rate: u32,
    bits_per_sample: u16,
    num_channels: u16,
) -> (r: Vec<u8>)
    requires
        sample_rate * num_channels * (bits_per_sample / 8) <= u32::MAX,
        num_channels * (bits_per_sample / 8) <= u16::MAX,
    ensures
        r@ == wav_header(sample_rate, bits_per_sample, num_channels, UNKNOWN_SIZE, UNKNOWN_SIZE),
{
    let bytes_per_sample = bits_per_sample / 8;
    let block_align = num_channels * bytes_per_sample;
    assert(sample_rate * num_channels * bytes_per_sample == sample_rate * (num_channels
        * bytes_per_sample)) by (nonlinear_arith);
    let byte_rate = sample_rate * block_align as u32;
    let mut header: Vec<u8> = Vec::new();
    push_tag(&mut header, 'R', 'I', 'F', 'F');
    push_le32(&mut header, UNKNOWN_SIZE);
    push_tag(&mut header, 'W', 'A', 'V', 'E');
    push_tag(&mut header, 'f', 'm', 't', ' ');
    push_le32(&mut header, 16);
    push_le16(&mut header, 1);
    push_le16(&mut header, num_channels);
    push_le32(&mut header, sample_rate);
    push_le32(&mut header, byte_rate);
    push_le16(&mut header, block_align);
    push_le16(&mut header, bits_per_sample);
    push_tag(&mut header, 'd', 'a', 't', 'a');
    push_le32(&mut header, UNKNOWN_SIZE);
    header
}

/// Every WAVE header is 44 bytes, with "RIFF" at 0..4, "WAVE" at 8..12,
/// "fmt " at 12..16 and "data" at 36..40.
pub proof fn lemma_wav_header_layout(
    sample_rate: u32,
    bits_per_sample: u16,
    num_channels: u16,
    riff_size: u32,
    data_size: u32,
)
    ensures
        ({
            let h = wav_header(sample_rate, bits_per_sample, num_channels, riff_size, data_size);
            &&& h.len() == 44
            &&& h.subrange(0, 4) == tag('R', 'I', 'F', 'F')
            &&& h.subrange(8, 12) == tag('W', 'A', 'V', 'E')
            &&& h.subrange(12, 16) == tag('f', 'm', 't', ' ')
            &&& h.subrange(36, 40) == tag('d', 'a', 't', 'a')
        }),
{
    let h = wav_header(sample_rate, bits_per_sample, num_channels, riff_size, data_size);
    assert(h.subrange(0, 4) =~= tag('R', 'I', 'F', 'F'));
    assert(h.subrange(8, 12) =~= tag('W', 'A', 'V', 'E'));
    assert(h.subrange(12, 16) =~= tag('f', 'm', 't', ' '));
    assert(h.subrange(36, 40) =~= tag('d', 'a', 't', 'a'));
}

/// A complete 16-bit mono WAVE file: header with final sizes, then the samples.
pub open spec fn wav_file(samples: Seq<i16>, sample_rate: u32) -> Seq<u8> {
    wav_header(sample_rate, 16, 1, (36 + 2 * samples.len()) as u32, (2 * samples.len()) as u32)
        + pcm_bytes(samples)
}

#[verifier::external_type_specification]
#[verifier::external_body]
pub struct ExHoundError(hound::Error);

/// Relies on hound's `WavWriter::new`, `write_sample` and `finalize` over an
/// in-memory cursor: for 16-bit mono integer samples hound writes the 44-byte
/// PCM header (format tag 1, fmt size 16) with the final RIFF and data sizes,
/// then each sample little-endian. Writing and seeking in a `Vec` cursor does
/// not fail, and 16 bits is a supported width, so the call succeeds; a zero
/// rate would divide by zero and the sizes are 32-bit, hence the bounds.
#[verifier::external_body]
fn hound_write_wav(samples: &[i16], sample_rate: u32, channels: u16, bits_per_sample: u16) -> (r:
    Result<Vec<u8>, hound::Error>)
    requires
        channels == 1,
        bits_per_sample == 16,
        0 < sample_rate,
        2 * sample_rate <= u32::MAX,
        36 + 2 * samples@.len() <= u32::MAX,
    ensures
        r is Ok,
        r matches Ok(bytes) ==> bytes@ == wav_file(samples@, sample_rate),
{
    let spec = hound::WavSpec {
        channels,
        sample_rate,
        bits_per_sample,
        sample_format: hound::SampleFormat::Int,
    };
    let mut cursor = std::io::Cursor::new(Vec::new());
    let mut writer = hound::WavWriter::new(&mut cursor, spec)?;
    for &sample in samples {
        writer.write_sample(sample)?;
    }
    writer.finalize()?;
    Ok(cursor.into_inner())
}

/// Encodes a whole utterance as a 16-bit mono WAVE file; a fault of the
/// writer would be an internal error.
pub fn encode_wav(samples: &[i16], sample_rate: u32) -> (r: Result<Vec<u8>, AppError>)
    requires
        0 < sample_rate,
        2 * sample_rate <= u32::MAX,
        36 + 2 * samples@.len() <= u32::MAX,
    ensures
        r is Ok,
        match r {
            Ok(bytes) => bytes@ == wav_file(samples@, sample_rate),
            Err(e) => e@ == AppErrorModel::Internal,
        },
{
    match hound_write_wav(samples, sample_rate, 1, 16) {
        Ok(bytes) => Ok(bytes),
        Err(_) => Err(AppError::Internal),
    }
}

} // verus!
