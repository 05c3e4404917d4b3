//! The WAV container: the canonical 44-byte PCM16 header that the recorder
//! writes, and reading it back.
use vstd::prelude::*;

verus! {

/// Little-endian bytes of a 16-bit value.
pub open spec fn le16(v: nat) -> Seq<u8> {
    seq![(v % 256) as u8, ((v / 256) % 256) as u8]
}

/// Little-endian bytes of a 32-bit value.
pub open spec fn le32(v: nat) -> Seq<u8> {
    seq![
        (v % 256) as u8,
        ((v / 256) % 256) as u8,
        ((v / 65536) % 256) as u8,
        ((v / 16777216) % 256) as u8,
    ]
}

/// The 16-bit little-endian value at `i`.
pub open spec fn u16_at(b: Seq<u8>, i: int) -> nat {
    (b[i] + b[i + 1] * 256) as nat
}

/// The 32-bit little-endian value at `i`.
pub open spec fn u32_at(b: Seq<u8>, i: int) -> nat {
    (b[i] + b[i + 1] * 256 + b[i + 2] * 65536 + b[i + 3] * 16777216) as nat
}

pub open spec fn tag(a: char, b: char, c: char, d: char) -> Seq<u8> {
    seq![a as u8, b as u8, c as u8, d as u8]
}

/// The header the recorder writes: RIFF/WAVE, a 16-byte `fmt ` chunk for PCM with
/// 16 bits per sample, then the `data` chunk header.
pub open spec fn spec_header(channels: nat, rate: nat, data_bytes: nat) -> Seq<u8> {
    tag('R', 'I', 'F', 'F') + le32(36 + data_bytes) + tag('W', 'A', 'V', 'E') + tag('f', 'm', 't', ' ')
        + le32(16) + le16(1) + le16(channels) + le32(rate) + le32(rate * channels * 2) + le16(
        channels * 2,
    ) + le16(16) + tag('d', 'a', 't', 'a') + le32(data_bytes)
}

fn push_le16(out: &mut Vec<u8>, v: u16)
    ensures
        final(out)@ == old(out)@ + le16(v as nat),
{
    out.push((v % 256) as u8);
    out.push(((v / 256) % 256) as u8);
    assert(final(out)@ =~= old(out)@ + le16(v as nat));
}

fn push_le32(out: &mut Vec<u8>, v: u32)
    ensures
        final(out)@ == old(out)@ + le32(v as nat),
{
    out.push((v % 256) as u8);
    out.push(((v / 256) % 256) as u8);
    out.push(((v / 65536) % 256) as u8);
    out.push(((v / 16777216) % 256) as u8);
    assert(final(out)@ =~= old(out)@ + le32(v as nat));
}

fn push_tag(out: &mut Vec<u8>, a: u8, b: u8, c: u8, d: u8)
    ensures
        final(out)@ == old(out)@ + seq![a, b, c, d],
{
    out.push(a);
    out.push(b);
    out.push(c);
    out.push(d);
    assert(final(out)@ =~= old(out)@ + seq![a, b, c, d]);
}

/// The header for `channels` channels of 16-bit PCM at `sample_rate`, with
/// `data_bytes` bytes of samples to follow (the recorder writes 0 first and the
/// real sizes when it finishes).
pub fn wav_header(channels: u16, sample_rate: u32, data_bytes: u32) -> (r: Vec<u8>)
    requires
        channels * 2 <= u16::MAX,
        sample_rate * channels * 2 <= u32::MAX,
        36 + data_bytes <= u32::MAX,
    ensures
        r@ == spec_header(channels as nat, sample_rate as nat, data_bytes as nat),
        r@.len() == 44,
{
    let block_align: u16 = channels * 2;
    assert(sample_rate * (block_align as u32) == sample_rate * channels * 2) by (nonlinear_arith)
        requires
            block_align == channels * 2,
    ;
    let byte_rate: u32 = sample_rate * (block_align as u32);
    let mut out: Vec<u8> = Vec::new();
    push_tag(&mut out, 82, 73, 70, 70);
    push_le32(&mut out, 36 + data_bytes);
    push_tag(&mut out, 87, 65, 86, 69);
    push_tag(&mut out, 102, 109, 116, 32);
    push_le32(&mut out, 16);
    push_le16(&mut out, 1);
    push_le16(&mut out, channels);
    push_le32(&mut out, sample_rate);
    push_le32(&mut out, byte_rate);
    push_le16(&mut out, block_align);
    push_le16(&mut out, 16);
    push_tag(&mut out, 100, 97, 116, 97);
    push_le32(&mut out, data_bytes);
    proof {
        assert(sample_rate * (block_align as u32) == sample_rate * channels * 2) by (nonlinear_arith)
            requires
                block_align == channels * 2,
        ;
    }
    assert(out@ =~= spec_header(channels as nat, sample_rate as nat, data_bytes as nat));
    out
}

/// Samples of 16-bit PCM as little-endian bytes, two per sample.
pub open spec fn spec_pcm_bytes(samples: Seq<i16>) -> Seq<u8>
    decreases samples.len(),
{
    if samples.len() == 0 {
        seq![]
    } else {
        spec_pcm_bytes(samples.drop_last()) + le16(
            (if samples.last() < 0 {
                samples.last() + 65536
            } else {
                samples.last() as int
            }) as nat,
        )
    }
}

/// The bytes that represent the samples in the `data` chunk.
pub fn pcm_bytes(samples: &[i16]) -> (r: Vec<u8>)
    ensures
        r@ == spec_pcm_bytes(samples@),
{
    let mut out: Vec<u8> = Vec::new();
    let mut i: usize = 0;
    while i < samples.len()
        invariant
            i <= samples.len(),
            out@ == spec_pcm_bytes(samples@.take(i as int)),
        decreases samples.len() - i,
    {
        assert(samples@.take(i + 1).drop_last() =~= samples@.take(i as int));
        let s = samples[i];
        let u: u16 = if s < 0 {
            (s as i32 + 65536) as u16
        } else {
            s as u16
        };
        push_le16(&mut out, u);
        i += 1;
    }
    assert(samples@.take(samples.len() as int) =~= samples@);
    out
}

/// Byte count of the `data` chunk after `n` more samples: twice `n`, cut to 32
/// bits, added with saturation.
pub fn grow_data_bytes(data_bytes: u32, n: usize) -> (r: u32)
    requires
        n * 2 <= usize::MAX,
    ensures
        r as nat == if data_bytes + ((n * 2) as u32) > u32::MAX {
            u32::MAX as nat
        } else {
            (data_bytes + ((n * 2) as u32)) as nat
        },
{
    let add: u32 = #[verifier::truncate] ((n * 2) as u32);
    data_bytes.saturating_add(add)
}

/// Where the `data` chunk's samples begin: the chunks are walked from byte `pos`.
pub open spec fn data_chunk_from(b: Seq<u8>, pos: nat) -> Option<nat>
    decreases (if pos <= b.len() {
        b.len() - pos
    } else {
        0
    }),
{
    if pos + 8 > b.len() {
        None
    } else if b.subrange(pos as int, pos + 4 as int) == tag('d', 'a', 't', 'a') {
        Some(pos + 8)
    } else {
        data_chunk_from(b, pos + 8 + u32_at(b, pos + 4 as int))
    }
}

/// Finds where the samples of the `data` chunk begin, walking the chunks after
/// the RIFF header.
pub fn find_data_chunk(bytes: &[u8]) -> (r: Option<usize>)
    ensures
        r matches Some(p) ==> data_chunk_from(bytes@, 12) == Some(p as nat),
        r is None ==> data_chunk_from(bytes@, 12) is None,
{
    let mut pos: usize = 12;
    while pos <= bytes.len() && bytes.len() - pos >= 8
        invariant
            data_chunk_from(bytes@, 12) == data_chunk_from(bytes@, pos as nat),
        decreases bytes.len() - pos,
    {
        let is_data = bytes[pos] == 100 && bytes[pos + 1] == 97 && bytes[pos + 2] == 116
            && bytes[pos + 3] == 97;
        assert(is_data == (bytes@.subrange(pos as int, pos + 4) == tag('d', 'a', 't', 'a'))) by {
            if is_data {
                assert(bytes@.subrange(pos as int, pos + 4) =~= tag('d', 'a', 't', 'a'));
            } else {
                if bytes@.subrange(pos as int, pos + 4) == tag('d', 'a', 't', 'a') {
                    assert(bytes@.subrange(pos as int, pos + 4)[0] == bytes@[pos as int]);
                    assert(bytes@.subrange(pos as int, pos + 4)[1] == bytes@[pos + 1]);
                    assert(bytes@.subrange(pos as int, pos + 4)[2] == bytes@[pos + 2]);
                    assert(bytes@.subrange(pos as int, pos + 4)[3] == bytes@[pos + 3]);
                }
            }
        }
        if is_data {
            return Some(pos + 8);
        }
        let size: u32 = (bytes[pos + 4] as u32) + (bytes[pos + 5] as u32) * 256 + (bytes[pos
            + 6] as u32) * 65536 + (bytes[pos + 7] as u32) * 16777216;
        if size as usize > bytes.len() - pos - 8 {
            assert(data_chunk_from(bytes@, (pos + 8 + size) as nat) is None);
            return None;
        }
        pos = pos + 8 + size as usize;
    }
    None
}

/// What the reader needs from a WAV header.
#[derive(Clone, Copy, Debug, PartialEq, Eq, Structural)]
pub struct WavInfo {
    /// Channels (at least one).
    pub channels: u16,
    /// Sample rate, Hz (at least one).
    pub rate: u32,
    /// Where the samples begin.
    pub data_start: usize,
}

/// Why a file cannot be read as our WAV.
#[derive(Clone, Copy, Debug, PartialEq, Eq, Structural)]
pub enum WavError {
    /// Shorter than a header, or not RIFF/WAVE.
    NotWav,
    /// Not 16 bits per sample.
    NotPcm16 { bits: u16 },
}

pub open spec fn is_riff_wave(b: Seq<u8>) -> bool {
    b.len() >= 44 && b.subrange(0, 4) == tag('R', 'I', 'F', 'F') && b.subrange(8, 12) == tag(
        'W',
        'A',
        'V',
        'E',
    )
}

pub open spec fn at_least_one(v: nat) -> nat {
    if v == 0 {
        1
    } else {
        v
    }
}

/// How a header reads: channels, rate and the start of the samples, or why not.
pub open spec fn spec_parse_header(b: Seq<u8>) -> Result<WavInfo, WavError> {
    if !is_riff_wave(b) {
        Err(WavError::NotWav)
    } else if u16_at(b, 34) != 16 {
        Err(WavError::NotPcm16 { bits: u16_at(b, 34) as u16 })
    } else {
        Ok(
            WavInfo {
                channels: at_least_one(u16_at(b, 22)) as u16,
                rate: at_least_one(u32_at(b, 24)) as u32,
                data_start: match data_chunk_from(b, 12) {
                    Some(p) => p as usize,
                    None => 44,
                },
            },
        )
    }
}

fn seq4_eq(b: &[u8], at: usize, x: u8, y: u8, z: u8, w: u8) -> (r: bool)
    requires
        at + 4 <= b.len(),
    ensures
        r == (b@.subrange(at as int, at + 4) == seq![x, y, z, w]),
{
    let r = b[at] == x && b[at + 1] == y && b[at + 2] == z && b[at + 3] == w;
    proof {
        if r {
            assert(b@.subrange(at as int, at + 4) =~= seq![x, y, z, w]);
        } else if b@.subrange(at as int, at + 4) == seq![x, y, z, w] {
            assert(b@.subrange(at as int, at + 4)[0] == b@[at as int]);
            assert(b@.subrange(at as int, at + 4)[1] == b@[at + 1]);
            assert(b@.subrange(at as int, at + 4)[2] == b@[at + 2]);
            assert(b@.subrange(at as int, at + 4)[3] == b@[at + 3]);
        }
    }
    r
}

/// Reads the header of a PCM16 WAV: checks RIFF/WAVE and 16 bits per sample,
/// and takes the channel count and the rate (zero read as one) and the start
/// of the samples (after the `data` chunk header; 44 when none is found).
pub fn parse_header(bytes: &[u8]) -> (r: Result<WavInfo, WavError>)
    ensures
        r == spec_parse_header(bytes@),
{
    if bytes.len() < 44 || !seq4_eq(bytes, 0, 82, 73, 70, 70) || !seq4_eq(bytes, 8, 87, 65, 86, 69) {
        return Err(WavError::NotWav);
    }
    let channels: u16 = (bytes[22] as u16) + (bytes[23] as u16) * 256;
    let rate: u32 = (bytes[24] as u32) + (bytes[25] as u32) * 256 + (bytes[26] as u32) * 65536
        + (bytes[27] as u32) * 16777216;
    let bits: u16 = (bytes[34] as u16) + (bytes[35] as u16) * 256;
    if bits != 16 {
        return Err(WavError::NotPcm16 { bits });
    }
    let data_start = match find_data_chunk(bytes) {
        Some(p) => p,
        None => 44,
    };
    Ok(
        WavInfo {
            channels: if channels == 0 {
                1
            } else {
                channels
            },
            rate: if rate == 0 {
                1
            } else {
                rate
            },
            data_start,
        },
    )
}

proof fn lemma_le16_roundtrip(v: nat)
    requires
        v < 65536,
    ensures
        le16(v)[0] + le16(v)[1] * 256 == v,
{
}

proof fn lemma_le32_roundtrip(v: nat)
    requires
        v < 0x1_0000_0000,
    ensures
        le32(v)[0] + le32(v)[1] * 256 + le32(v)[2] * 65536 + le32(v)[3] * 16777216 == v,
{
}

/// Law: the recorder's header reads back as written. A file made of the header
/// for `channels` channels at `rate` Hz followed by samples parses to those
/// channels and that rate (a zero read as one), with the samples starting
/// right after the 44-byte header.
pub proof fn law_header_reads_back(channels: u16, rate: u32, data_bytes: u32, data: Seq<u8>)
    requires
        channels * 2 <= u16::MAX,
        rate * channels * 2 <= u32::MAX,
        36 + data_bytes <= u32::MAX,
    ensures
        spec_parse_header(spec_header(channels as nat, rate as nat, data_bytes as nat) + data)
            == Ok::<WavInfo, WavError>(
            WavInfo {
                channels: if channels == 0 {
                    1
                } else {
                    channels
                },
                rate: if rate == 0 {
                    1
                } else {
                    rate
                },
                data_start: 44,
            },
        ),
{
    let h = spec_header(channels as nat, rate as nat, data_bytes as nat);
    let b = h + data;
    assert(h.len() == 44);
    lemma_le16_roundtrip(channels as nat);
    lemma_le16_roundtrip(16);
    lemma_le32_roundtrip(rate as nat);
    lemma_le32_roundtrip(16);
    assert(b.subrange(0, 4) =~= tag('R', 'I', 'F', 'F'));
    assert(b.subrange(8, 12) =~= tag('W', 'A', 'V', 'E'));
    assert(b[22] == h[22] && b[23] == h[23]);
    assert(b[24] == h[24] && b[25] == h[25] && b[26] == h[26] && b[27] == h[27]);
    assert(b[34] == h[34] && b[35] == h[35]);
    assert(u16_at(b, 22) == channels);
    assert(u32_at(b, 24) == rate);
    assert(u16_at(b, 34) == 16);
    assert(b.subrange(12, 16) =~= tag('f', 'm', 't', ' '));
    assert(u32_at(b, 16) == 16);
    assert(b.subrange(36, 40) =~= tag('d', 'a', 't', 'a'));
    assert(b.subrange(12, 16) != tag('d', 'a', 't', 'a')) by {
        assert(b.subrange(12, 16)[0] != tag('d', 'a', 't', 'a')[0]);
    }
    assert(data_chunk_from(b, 36) == Some(44nat));
    assert(data_chunk_from(b, 12) == data_chunk_from(b, 36));
}

/// The signed 16-bit sample stored little-endian at byte `i`.
pub open spec fn sample_at(b: Seq<u8>, i: int) -> int {
    let u = b[i] + b[i + 1] * 256;
    if u >= 32768 {
        u - 65536
    } else {
        u
    }
}

/// Sum of the first `c` channels of frame `f` (frames of `ch` interleaved samples).
pub open spec fn channel_sum(b: Seq<u8>, ch: int, f: int, c: int) -> int
    decreases c,
{
    if c <= 0 {
        0
    } else {
        channel_sum(b, ch, f, c - 1) + sample_at(b, (f * ch + c - 1) * 2)
    }
}

proof fn lemma_channel_sum_bound(b: Seq<u8>, ch: int, f: int, c: int)
    requires
        0 <= c,
    ensures
        -32768 * c <= channel_sum(b, ch, f, c) <= 32767 * c,
    decreases c,
{
    if c > 0 {
        lemma_channel_sum_bound(b, ch, f, c - 1);
    }
}

/// Per frame, the sum of its samples over all channels — the basis of the mono
/// mix-down. Trailing bytes that do not fill a frame are ignored.
pub fn frame_sums(data: &[u8], channels: u16) -> (r: Vec<i32>)
    requires
        channels >= 1,
    ensures
        r@.len() == data@.len() / (channels as nat * 2),
        forall|f: int|
            0 <= f < r@.len() ==> (#[trigger] r@[f]) as int == channel_sum(
                data@,
                channels as int,
                f,
                channels as int,
            ),
{
    let ch = channels as usize;
    let frame_bytes = ch * 2;
    let frames = data.len() / frame_bytes;
    let mut out: Vec<i32> = Vec::new();
    let mut f: usize = 0;
    while f < frames
        invariant
            ch == channels as usize,
            ch >= 1,
            frame_bytes == ch * 2,
            frames == data.len() / frame_bytes,
            f <= frames,
            out@.len() == f,
            forall|g: int|
                0 <= g < f ==> (#[trigger] out@[g]) as int == channel_sum(
                    data@,
                    ch as int,
                    g,
                    ch as int,
                ),
        decreases frames - f,
    {
        proof {
            assert(f * frame_bytes + frame_bytes <= data.len()) by (nonlinear_arith)
                requires
                    f < frames,
                    frames == data.len() / frame_bytes,
                    frame_bytes > 0,
            ;
        }
        let base = f * frame_bytes;
        let mut acc: i32 = 0;
        let mut c: usize = 0;
        while c < ch
            invariant
                ch == channels as usize,
                ch <= 65535,
                frame_bytes == ch * 2,
                base == f * frame_bytes,
                base + frame_bytes <= data.len(),
                c <= ch,
                acc as int == channel_sum(data@, ch as int, f as int, c as int),
            decreases ch - c,
        {
            proof {
                lemma_channel_sum_bound(data@, ch as int, f as int, c as int);
                assert(base + c * 2 + 1 < data.len()) by (nonlinear_arith)
                    requires
                        c < ch,
                        base + frame_bytes <= data.len(),
                        frame_bytes == ch * 2,
                ;
                assert((f * ch + c) * 2 == base + c * 2) by (nonlinear_arith)
                    requires
                        base == f * frame_bytes,
                        frame_bytes == ch * 2,
                ;
                assert(-32768 * c >= -32768 * 65535 && 32767 * c <= 32767 * 65535);
            }
            let o = base + c * 2;
            let u: i32 = (data[o] as i32) + (data[o + 1] as i32) * 256;
            let v: i32 = if u >= 32768 {
                u - 65536
            } else {
                u
            };
            acc = acc + v;
            c += 1;
        }
        out.push(acc);
        f += 1;
    }
    out
}

} // verus!
