//! RIFF/WAVE packaging of a finished recording.
//!
//! The container is the canonical 44-byte PCM header followed by the samples
//! as little-endian 16-bit words: mono, 16 bits per sample, at the fixed
//! 16 kHz target rate. The encoding is a pure function of the samples; it
//! fails only when the recording is too long for the container's 32-bit size
//! fields.

use crate::errors::ApiError;
use vstd::prelude::*;

verus! {

/// Most samples one file can carry: the RIFF chunk size `36 + 2 * n` must
/// fit an unsigned 32-bit field.
pub const MAX_WAV_SAMPLES: usize = 0x7FFF_FFED;

/// Little-endian bytes of a 16-bit value.
pub open spec fn le16(x: int) -> Seq<u8> {
    seq![(x % 256) as u8, ((x / 256) % 256) as u8]
}

/// Little-endian bytes of a 32-bit value.
pub open spec fn le32(x: int) -> Seq<u8> {
    seq![
        (x % 256) as u8,
        ((x / 256) % 256) as u8,
        ((x / 65536) % 256) as u8,
        ((x / 16777216) % 256) as u8,
    ]
}

/// A sample's two's-complement 16-bit pattern.
pub open spec fn sample_bits(s: i16) -> int {
    if s >= 0 {
        s as int
    } else {
        s + 65536
    }
}

/// The 44-byte header of a mono, 16-bit, 16 kHz PCM file of `n` samples:
/// the RIFF chunk, the PCM format chunk, and the data chunk's prelude.
pub open spec fn wav_header(n: int) -> Seq<u8> {
    seq![0x52u8, 0x49u8, 0x46u8, 0x46u8]  // "RIFF"
     + le32(36 + 2 * n)  // RIFF chunk size
     + seq![0x57u8, 0x41u8, 0x56u8, 0x45u8]  // "WAVE"
     + seq![0x66u8, 0x6du8, 0x74u8, 0x20u8]  // "fmt "
     + le32(16)  // format chunk size
     + le16(1)  // PCM, uncompressed
     + le16(1)  // one channel
     + le32(16000)  // sample rate
     + le32(32000)  // byte rate
     + le16(2)  // block align
     + le16(16)  // bits per sample
     + seq![0x64u8, 0x61u8, 0x74u8, 0x61u8]  // "data"
     + le32(2 * n)  // data chunk size
}

/// The samples as consecutive little-endian 16-bit words.
pub open spec fn sample_data(samples: Seq<i16>) -> Seq<u8> {
    Seq::new(
        2 * samples.len(),
        |j: int|
            if j % 2 == 0 {
                (sample_bits(samples[j / 2]) % 256) as u8
            } else {
                (sample_bits(samples[j / 2]) / 256) as u8
            },
    )
}

/// The whole container.
pub open spec fn wav_bytes(samples: Seq<i16>) -> Seq<u8> {
    wav_header(samples.len() as int) + sample_data(samples)
}

fn push_le16(out: &mut Vec<u8>, x: u16)
    ensures
        final(out)@ == old(out)@ + le16(x as int),
{
    out.push((x % 256) as u8);
    out.push((x / 256) as u8);
    proof {
        assert(out@ =~= old(out)@ + le16(x as int));
    }
}

fn push_le32(out: &mut Vec<u8>, x: u32)
    ensures
        final(out)@ == old(out)@ + le32(x as int),
{
    out.push((x % 256) as u8);
    out.push(((x / 256) % 256) as u8);
    out.push(((x / 65536) % 256) as u8);
    out.push(((x / 16777216) % 256) as u8);
    proof {
        assert(out@ =~= old(out)@ + le32(x as int));
    }
}

/// Package a finished 16-bit mono recording at the target rate as a
/// RIFF/WAVE byte sequence. Fails exactly when the recording does not fit
/// the container's size fields.
pub fn encode_wav(samples: &Vec<i16>) -> (r: Result<Vec<u8>, ApiError>)
    ensures
        samples@.len() <= MAX_WAV_SAMPLES ==> (r matches Ok(bytes) && bytes@ == wav_bytes(
            samples@,
        )),
        samples@.len() > MAX_WAV_SAMPLES ==> (r matches Err(e) && e is EncodingError),
{
    if samples.len() > MAX_WAV_SAMPLES {
        return Err(ApiError::EncodingError);
    }
    let n = samples.len();
    let data_len: u32 = (n as u64 * 2) as u32;
    let mut out: Vec<u8> = Vec::new();
    out.push(0x52);
    out.push(0x49);
    out.push(0x46);
    out.push(0x46);
    push_le32(&mut out, 36 + data_len);
    out.push(0x57);
    out.push(0x41);
    out.push(0x56);
    out.push(0x45);
    out.push(0x66);
    out.push(0x6d);
    out.push(0x74);
    out.push(0x20);
    push_le32(&mut out, 16);
    push_le16(&mut out, 1);
    push_le16(&mut out, 1);
    push_le32(&mut out, 16000);
    push_le32(&mut out, 32000);
    push_le16(&mut out, 2);
    push_le16(&mut out, 16);
    out.push(0x64);
    out.push(0x61);
    out.push(0x74);
    out.push(0x61);
    push_le32(&mut out, data_len);
    proof {
        assert(out@ =~= wav_header(n as int));
    }
    let mut i: usize = 0;
    while i < n
        invariant
            n == samples@.len(),
            i <= n,
            out@ == wav_header(n as int) + sample_data(samples@.subrange(0, i as int)),
        decreases n - i,
    {
        let s = samples[i];
        let bits: u16 = if s >= 0 {
            s as u16
        } else {
            ((s as i32) + 65536) as u16
        };
        out.push((bits % 256) as u8);
        out.push((bits / 256) as u8);
        proof {
            assert(bits as int == sample_bits(samples@[i as int]));
            assert(out@ =~= wav_header(n as int) + sample_data(samples@.subrange(0, i + 1)));
        }
        i = i + 1;
    }
    proof {
        assert(samples@.subrange(0, n as int) =~= samples@);
        assert(out@ == wav_bytes(samples@));
    }
    Ok(out)
}

} // verus!
