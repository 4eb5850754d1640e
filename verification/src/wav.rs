//! The 44-byte RIFF/WAVE header for 32-bit float PCM data.

use vstd::prelude::*;

verus! {

/// The low byte of a value.
pub open spec fn byte0(x: int) -> u8 {
    (x % 256) as u8
}

/// The second-lowest byte of a value.
pub open spec fn byte1(x: int) -> u8 {
    ((x / 256) % 256) as u8
}

/// The third-lowest byte of a value.
pub open spec fn byte2(x: int) -> u8 {
    ((x / 65536) % 256) as u8
}

/// The fourth-lowest byte of a value.
pub open spec fn byte3(x: int) -> u8 {
    ((x / 16777216) % 256) as u8
}

/// The exact bytes of the header: the RIFF chunk descriptor, the `fmt `
/// sub-chunk declaring IEEE-float samples of 32 bits, and the `data`
/// sub-chunk header, all sizes little-endian.
pub open spec fn wav_header_spec(num_channels: u16, sample_rate: u32, num_frames: u32) -> Seq<u8> {
    let block_align = (num_channels as int) * 4;
    let byte_rate = (sample_rate as int) * block_align;
    let data_chunk_size = (num_frames as int) * block_align;
    let file_size = 36 + data_chunk_size;
    seq![
        0x52u8,
        0x49u8,
        0x46u8,
        0x46u8,
        byte0(file_size),
        byte1(file_size),
        byte2(file_size),
        byte3(file_size),
        0x57u8,
        0x41u8,
        0x56u8,
        0x45u8,
        0x66u8,
        0x6du8,
        0x74u8,
        0x20u8,
        16u8,
        0u8,
        0u8,
        0u8,
        3u8,
        0u8,
        byte0(num_channels as int),
        byte1(num_channels as int),
        byte0(sample_rate as int),
        byte1(sample_rate as int),
        byte2(sample_rate as int),
        byte3(sample_rate as int),
        byte0(byte_rate),
        byte1(byte_rate),
        byte2(byte_rate),
        byte3(byte_rate),
        byte0(block_align),
        byte1(block_align),
        32u8,
        0u8,
        0x64u8,
        0x61u8,
        0x74u8,
        0x61u8,
        byte0(data_chunk_size),
        byte1(data_chunk_size),
        byte2(data_chunk_size),
        byte3(data_chunk_size),
    ]
}

/// The two little-endian bytes of a `u16`.
fn le16(x: u16) -> (r: (u8, u8))
    ensures
        r.0 == byte0(x as int),
        r.1 == byte1(x as int),
{
    ((x % 256) as u8, (x / 256) as u8)
}

/// The four little-endian bytes of a `u32`.
fn le32(x: u32) -> (r: (u8, u8, u8, u8))
    ensures
        r.0 == byte0(x as int),
        r.1 == byte1(x as int),
        r.2 == byte2(x as int),
        r.3 == byte3(x as int),
{
    ((x % 256) as u8, ((x / 256) % 256) as u8, ((x / 65536) % 256) as u8, (x / 16777216) as u8)
}

/// Builds the header for `num_frames` frames of `num_channels`-channel
/// 32-bit float samples at `sample_rate`. The bounds keep the computed
/// sizes inside their header fields.
pub fn make_wav_header(num_channels: u16, sample_rate: u32, num_frames: u32) -> (header: Vec<u8>)
    requires
        num_channels as int * 4 <= u16::MAX as int,
        sample_rate as int * (num_channels as int * 4) <= u32::MAX as int,
        36 + num_frames as int * (num_channels as int * 4) <= u32::MAX as int,
    ensures
        header@ == wav_header_spec(num_channels, sample_rate, num_frames),
        header@.len() == 44,
{
    let block_align: u16 = num_channels * 4;
    let byte_rate: u32 = sample_rate * (block_align as u32);
    let data_chunk_size: u32 = num_frames * (block_align as u32);
    let file_size: u32 = 36 + data_chunk_size;
    let fs = le32(file_size);
    let nc = le16(num_channels);
    let sr = le32(sample_rate);
    let br = le32(byte_rate);
    let ba = le16(block_align);
    let dc = le32(data_chunk_size);
    let mut header: Vec<u8> = Vec::new();
    header.push(0x52);
    header.push(0x49);
    header.push(0x46);
    header.push(0x46);
    header.push(fs.0);
    header.push(fs.1);
    header.push(fs.2);
    header.push(fs.3);
    header.push(0x57);
    header.push(0x41);
    header.push(0x56);
    header.push(0x45);
    header.push(0x66);
    header.push(0x6d);
    header.push(0x74);
    header.push(0x20);
    header.push(16);
    header.push(0);
    header.push(0);
    header.push(0);
    header.push(3);
    header.push(0);
    header.push(nc.0);
    header.push(nc.1);
    header.push(sr.0);
    header.push(sr.1);
    header.push(sr.2);
    header.push(sr.3);
    header.push(br.0);
    header.push(br.1);
    header.push(br.2);
    header.push(br.3);
    header.push(ba.0);
    header.push(ba.1);
    header.push(32);
    header.push(0);
    header.push(0x64);
    header.push(0x61);
    header.push(0x74);
    header.push(0x61);
    header.push(dc.0);
    header.push(dc.1);
    header.push(dc.2);
    header.push(dc.3);
    proof {
        assert(header@ =~= wav_header_spec(num_channels, sample_rate, num_frames));
    }
    header
}

} // verus!
