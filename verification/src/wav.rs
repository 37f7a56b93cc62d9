//! The uncompressed audio container: a 68-byte extensible header followed by
//! the samples as little-endian binary32 patterns.

use crate::error::PipelineError;
use crate::sample::{patterns, Sample};
use vstd::arithmetic::power2::{lemma2_to64, lemma_pow2_unfold, pow2};
use vstd::prelude::*;

verus! {

/// The length of the header in bytes.
pub const HEADER_LEN: usize = 68;

/// The sample rate at which the recorder's audio is declared.
pub const SAMPLE_RATE: u32 = 44100;

/// The channel count of the recorder's audio.
pub const CHANNELS: u16 = 1;

/// The two bytes of `x`, least significant first.
pub open spec fn le_bytes_u16(x: u16) -> Seq<u8> {
    seq![(x % 256) as u8, (x / 256) as u8]
}

/// The four bytes of `x`, least significant first.
pub open spec fn le_bytes_u32(x: u32) -> Seq<u8> {
    seq![
        (x % 256) as u8,
        (x / 256 % 256) as u8,
        (x / 65536 % 256) as u8,
        (x / 16777216) as u8,
    ]
}

/// The number whose little-endian bytes stand at `at`.
pub open spec fn read_u16_le(bytes: Seq<u8>, at: int) -> int {
    bytes[at] + 256 * bytes[at + 1]
}

/// The number whose little-endian bytes stand at `at`.
pub open spec fn read_u32_le(bytes: Seq<u8>, at: int) -> int {
    bytes[at] + 256 * bytes[at + 1] + 65536 * bytes[at + 2] + 16777216 * bytes[at + 3]
}

/// Reading back what was written gives the number again.
pub proof fn lemma_le_u32_round_trip(x: u32)
    ensures
        le_bytes_u32(x).len() == 4,
        read_u32_le(le_bytes_u32(x), 0) == x,
{
}

/// Reading back what was written gives the number again.
pub proof fn lemma_le_u16_round_trip(x: u16)
    ensures
        le_bytes_u16(x).len() == 2,
        read_u16_le(le_bytes_u16(x), 0) == x,
{
}

fn push_u16(out: &mut Vec<u8>, x: u16)
    ensures
        final(out)@ == old(out)@ + le_bytes_u16(x),
{
    out.push((x % 256) as u8);
    out.push((x / 256) as u8);
    assert(out@ =~= old(out)@ + le_bytes_u16(x));
}

fn push_u32(out: &mut Vec<u8>, x: u32)
    ensures
        final(out)@ == old(out)@ + le_bytes_u32(x),
{
    out.push((x % 256) as u8);
    out.push((x / 256 % 256) as u8);
    out.push((x / 65536 % 256) as u8);
    out.push((x / 16777216) as u8);
    assert(out@ =~= old(out)@ + le_bytes_u32(x));
}

fn push_tag(out: &mut Vec<u8>, b0: u8, b1: u8, b2: u8, b3: u8)
    ensures
        final(out)@ == old(out)@ + seq![b0, b1, b2, b3],
{
    out.push(b0);
    out.push(b1);
    out.push(b2);
    out.push(b3);
    assert(out@ =~= old(out)@ + seq![b0, b1, b2, b3]);
}

/// One bit for each of the first 18 channels.
pub open spec fn channel_mask(channels: u16) -> u32 {
    if channels >= 18 {
        0x3FFFF
    } else {
        (pow2(channels as nat) - 1) as u32
    }
}

fn compute_channel_mask(channels: u16) -> (mask: u32)
    ensures
        mask == channel_mask(channels),
{
    let limit: u16 = if channels > 18 { 18 } else { channels };
    let mut mask: u32 = 0;
    let mut c: u16 = 0;
    proof {
        lemma2_to64();
    }
    while c < limit
        invariant
            c <= limit <= 18,
            mask == pow2(c as nat) - 1,
            mask <= 0x3FFFF,
        decreases limit - c,
    {
        proof {
            lemma_pow2_unfold((c + 1) as nat);
            lemma2_to64();
        }
        mask = mask * 2 + 1;
        c = c + 1;
    }
    mask
}

/// The sub-format identifier of binary32 samples.
pub open spec fn float_subformat() -> Seq<u8> {
    seq![
        0x03u8, 0x00, 0x00, 0x00, 0x00, 0x00, 0x10, 0x00,
        0x80, 0x00, 0x00, 0xaa, 0x00, 0x38, 0x9b, 0x71,
    ]
}

/// Whether a header can describe `count` samples at this rate and channel
/// count: both are positive, the byte rate and the block size fit their
/// fields, the samples make whole frames, and the file's size fits in 32 bits.
pub open spec fn encodable(count: nat, sample_rate: u32, channels: u16) -> bool {
    &&& 1 <= channels <= 16383
    &&& 1 <= sample_rate
    &&& sample_rate * 4 * channels <= u32::MAX
    &&& count % (channels as nat) == 0
    &&& 4 * count + 60 <= u32::MAX
}

/// Bytes 0 to 11: the file's tag, the size of what follows it, the form's tag.
pub open spec fn riff_chunk(data_len: u32) -> Seq<u8> {
    seq![0x52u8, 0x49, 0x46, 0x46] + le_bytes_u32((data_len + 60) as u32) + seq![
        0x57u8,
        0x41,
        0x56,
        0x45,
    ]
}

/// Bytes 12 to 19: the format chunk's tag and the size of its body, 40.
pub open spec fn format_intro() -> Seq<u8> {
    seq![0x66u8, 0x6d, 0x74, 0x20] + le_bytes_u32(40)
}

/// Bytes 20 to 35: the extensible format tag, the channel count, the sample
/// rate, the byte rate, the size of one frame and of one sample's container.
pub open spec fn wave_format(sample_rate: u32, channels: u16) -> Seq<u8> {
    le_bytes_u16(0xFFFE) + le_bytes_u16(channels) + le_bytes_u32(sample_rate) + le_bytes_u32(
        (sample_rate * 4 * channels) as u32,
    ) + le_bytes_u16((4 * channels) as u16) + le_bytes_u16(32)
}

/// Bytes 36 to 59: the extension's size, the valid bits of a sample, the
/// channel mask and the sub-format.
pub open spec fn format_extension(channels: u16) -> Seq<u8> {
    le_bytes_u16(22) + le_bytes_u16(32) + le_bytes_u32(channel_mask(channels)) + float_subformat()
}

/// Bytes 60 to 67: the data chunk's tag and the payload's length.
pub open spec fn data_intro(data_len: u32) -> Seq<u8> {
    seq![0x64u8, 0x61, 0x74, 0x61] + le_bytes_u32(data_len)
}

/// The header of a container that holds `data_len` bytes of samples.
pub open spec fn header(sample_rate: u32, channels: u16, data_len: u32) -> Seq<u8> {
    riff_chunk(data_len) + format_intro() + wave_format(sample_rate, channels) + format_extension(
        channels,
    ) + data_intro(data_len)
}

/// The patterns as bytes, in order, least significant byte first.
pub open spec fn payload(samples: Seq<u32>) -> Seq<u8>
    decreases samples.len(),
{
    if samples.len() == 0 {
        Seq::empty()
    } else {
        payload(samples.drop_last()) + le_bytes_u32(samples.last())
    }
}

/// The whole container of samples given by their patterns: header, then
/// payload.
pub open spec fn container(samples: Seq<u32>, sample_rate: u32, channels: u16) -> Seq<u8> {
    header(sample_rate, channels, (4 * samples.len()) as u32) + payload(samples)
}

fn write_riff_chunk(out: &mut Vec<u8>, data_len: u32)
    requires
        data_len + 60 <= u32::MAX,
    ensures
        final(out)@ == old(out)@ + riff_chunk(data_len),
{
    push_tag(out, 0x52, 0x49, 0x46, 0x46);
    push_u32(out, data_len + 60);
    push_tag(out, 0x57, 0x41, 0x56, 0x45);
    assert(out@ =~= old(out)@ + riff_chunk(data_len));
}

fn write_format_intro(out: &mut Vec<u8>)
    ensures
        final(out)@ == old(out)@ + format_intro(),
{
    push_tag(out, 0x66, 0x6d, 0x74, 0x20);
    push_u32(out, 40);
    assert(out@ =~= old(out)@ + format_intro());
}

fn write_wave_format(out: &mut Vec<u8>, sample_rate: u32, channels: u16)
    requires
        1 <= channels <= 16383,
        sample_rate * 4 * channels <= u32::MAX,
    ensures
        final(out)@ == old(out)@ + wave_format(sample_rate, channels),
{
    let block: u16 = 4 * channels;
    assert(sample_rate * (4 * channels) == sample_rate * 4 * channels) by (nonlinear_arith);
    let byte_rate: u32 = sample_rate * (block as u32);
    push_u16(out, 0xFFFE);
    push_u16(out, channels);
    push_u32(out, sample_rate);
    push_u32(out, byte_rate);
    push_u16(out, block);
    push_u16(out, 32);
    assert(out@ =~= old(out)@ + wave_format(sample_rate, channels));
}

fn write_format_extension(out: &mut Vec<u8>, channels: u16)
    ensures
        final(out)@ == old(out)@ + format_extension(channels),
{
    let mask: u32 = compute_channel_mask(channels);
    push_u16(out, 22);
    push_u16(out, 32);
    push_u32(out, mask);
    push_tag(out, 0x03, 0x00, 0x00, 0x00);
    push_tag(out, 0x00, 0x00, 0x10, 0x00);
    push_tag(out, 0x80, 0x00, 0x00, 0xaa);
    push_tag(out, 0x00, 0x38, 0x9b, 0x71);
    assert(out@ =~= old(out)@ + format_extension(channels));
}

fn write_data_intro(out: &mut Vec<u8>, data_len: u32)
    ensures
        final(out)@ == old(out)@ + data_intro(data_len),
{
    push_tag(out, 0x64, 0x61, 0x74, 0x61);
    push_u32(out, data_len);
    assert(out@ =~= old(out)@ + data_intro(data_len));
}

fn write_header(out: &mut Vec<u8>, sample_rate: u32, channels: u16, data_len: u32)
    requires
        old(out)@.len() == 0,
        1 <= channels <= 16383,
        sample_rate * 4 * channels <= u32::MAX,
        data_len + 60 <= u32::MAX,
    ensures
        final(out)@ == header(sample_rate, channels, data_len),
{
    write_riff_chunk(out, data_len);
    assert(out@ =~= riff_chunk(data_len));
    write_format_intro(out);
    write_wave_format(out, sample_rate, channels);
    write_format_extension(out, channels);
    write_data_intro(out, data_len);
}

/// Serialises the samples into a container in memory.
///
/// The result is a function of the arguments alone. It fails exactly when no
/// header can describe them.
pub fn samples_to_wav(samples: &[Sample], sample_rate: u32, channels: u16) -> (r: Result<
    Vec<u8>,
    PipelineError,
>)
    ensures
        encodable(samples@.len(), sample_rate, channels) ==> r.is_ok() && r.unwrap()@
            == container(patterns(samples@), sample_rate, channels),
        !encodable(samples@.len(), sample_rate, channels) ==> r == Err::<Vec<u8>, PipelineError>(
            PipelineError::EncodingFailed,
        ),
{
    let count: usize = samples.len();
    if channels == 0 || channels > 16383 || sample_rate == 0 {
        return Err(PipelineError::EncodingFailed);
    }
    let frame_bytes: u64 = 4 * (channels as u64);
    assert(sample_rate * frame_bytes <= 0xFFFF_FFFF * 65532) by (nonlinear_arith)
        requires
            sample_rate <= 0xFFFF_FFFF,
            frame_bytes <= 65532,
    ;
    assert(sample_rate * frame_bytes == sample_rate * 4 * channels) by (nonlinear_arith)
        requires
            frame_bytes == 4 * channels,
    ;
    if (sample_rate as u64) * frame_bytes > 0xFFFF_FFFF {
        return Err(PipelineError::EncodingFailed);
    }
    if count > 1073741808 || count % (channels as usize) != 0 {
        return Err(PipelineError::EncodingFailed);
    }
    let data_len: u32 = (count * 4) as u32;
    let mut out: Vec<u8> = Vec::new();
    write_header(&mut out, sample_rate, channels, data_len);
    let mut i: usize = 0;
    let ghost all = patterns(samples@);
    assert(all.take(0) =~= Seq::<u32>::empty());
    assert(out@ =~= header(sample_rate, channels, data_len) + payload(all.take(0)));
    while i < count
        invariant
            i <= count,
            count == samples@.len(),
            all == patterns(samples@),
            out@ == header(sample_rate, channels, data_len) + payload(all.take(i as int)),
        decreases count - i,
    {
        let bits: u32 = samples[i].to_bits();
        push_u32(&mut out, bits);
        proof {
            let next = all.take(i + 1);
            assert(next.drop_last() =~= all.take(i as int));
            assert(next.last() == bits);
            assert(out@ =~= header(sample_rate, channels, data_len) + payload(next));
        }
        i = i + 1;
    }
    assert(all.take(count as int) =~= all);
    Ok(out)
}

/// The channel count that a container's header declares.
pub open spec fn declared_channels(bytes: Seq<u8>) -> int {
    read_u16_le(bytes, 22)
}

/// The sample rate that a container's header declares.
pub open spec fn declared_sample_rate(bytes: Seq<u8>) -> int {
    read_u32_le(bytes, 24)
}

/// The size of one sample in bits, as the header declares it.
pub open spec fn declared_bits_per_sample(bytes: Seq<u8>) -> int {
    read_u16_le(bytes, 34)
}

/// Whether the header declares binary32 samples in the extensible format.
pub open spec fn declares_float(bytes: Seq<u8>) -> bool {
    &&& read_u16_le(bytes, 20) == 0xFFFE
    &&& read_u16_le(bytes, 38) == 32
    &&& bytes.subrange(44, 60) == float_subformat()
}

/// The length of the payload in bytes, as the header declares it.
pub open spec fn declared_data_len(bytes: Seq<u8>) -> int {
    read_u32_le(bytes, 64)
}

/// The patterns that a decoder reads from a container's payload.
pub open spec fn decoded_patterns(bytes: Seq<u8>) -> Seq<u32> {
    Seq::new(
        (declared_data_len(bytes) / 4) as nat,
        |i: int| read_u32_le(bytes, 68 + 4 * i) as u32,
    )
}

/// The payload holds four bytes for each sample, at four times its index.
pub proof fn lemma_payload_layout(samples: Seq<u32>, i: int)
    requires
        0 <= i < samples.len(),
    ensures
        payload(samples).len() == 4 * samples.len(),
        read_u32_le(payload(samples), 4 * i) == samples[i],
    decreases samples.len(),
{
    lemma_payload_len(samples);
    let front = samples.drop_last();
    lemma_payload_len(front);
    let bits = samples.last();
    lemma_le_u32_round_trip(bits);
    if i < samples.len() - 1 {
        lemma_payload_layout(front, i);
        assert(front[i] == samples[i]);
        assert(payload(samples)[4 * i] == payload(front)[4 * i]);
        assert(payload(samples)[4 * i + 1] == payload(front)[4 * i + 1]);
        assert(payload(samples)[4 * i + 2] == payload(front)[4 * i + 2]);
        assert(payload(samples)[4 * i + 3] == payload(front)[4 * i + 3]);
    } else {
        let tail = le_bytes_u32(bits);
        assert(payload(samples)[4 * i] == tail[0]);
        assert(payload(samples)[4 * i + 1] == tail[1]);
        assert(payload(samples)[4 * i + 2] == tail[2]);
        assert(payload(samples)[4 * i + 3] == tail[3]);
    }
}

/// The payload is four bytes long for each sample.
pub proof fn lemma_payload_len(samples: Seq<u32>)
    ensures
        payload(samples).len() == 4 * samples.len(),
    decreases samples.len(),
{
    if samples.len() > 0 {
        lemma_payload_len(samples.drop_last());
    }
}

/// The lengths of the header's five parts.
proof fn lemma_part_lengths(sample_rate: u32, channels: u16, data_len: u32)
    ensures
        riff_chunk(data_len).len() == 12,
        format_intro().len() == 8,
        wave_format(sample_rate, channels).len() == 16,
        format_extension(channels).len() == 24,
        data_intro(data_len).len() == 8,
{
}

/// A 16-bit number reads back from between any two byte sequences.
proof fn lemma_read_u16_between(before: Seq<u8>, x: u16, after: Seq<u8>)
    ensures
        read_u16_le(before + le_bytes_u16(x) + after, before.len() as int) == x,
{
    let s = before + le_bytes_u16(x) + after;
    let at = before.len() as int;
    assert(s[at] == le_bytes_u16(x)[0]);
    assert(s[at + 1] == le_bytes_u16(x)[1]);
    lemma_le_u16_round_trip(x);
}

/// A 32-bit number reads back from between any two byte sequences.
proof fn lemma_read_u32_between(before: Seq<u8>, x: u32, after: Seq<u8>)
    ensures
        read_u32_le(before + le_bytes_u32(x) + after, before.len() as int) == x,
{
    let s = before + le_bytes_u32(x) + after;
    let at = before.len() as int;
    assert(s[at] == le_bytes_u32(x)[0]);
    assert(s[at + 1] == le_bytes_u32(x)[1]);
    assert(s[at + 2] == le_bytes_u32(x)[2]);
    assert(s[at + 3] == le_bytes_u32(x)[3]);
    lemma_le_u32_round_trip(x);
}

/// What stands in the format part, read at its own offsets.
proof fn lemma_wave_format_fields(sample_rate: u32, channels: u16)
    requires
        1 <= channels <= 16383,
    ensures
        read_u16_le(wave_format(sample_rate, channels), 0) == 0xFFFE,
        read_u16_le(wave_format(sample_rate, channels), 2) == channels,
        read_u32_le(wave_format(sample_rate, channels), 4) == sample_rate,
        read_u16_le(wave_format(sample_rate, channels), 12) == 4 * channels,
        read_u16_le(wave_format(sample_rate, channels), 14) == 32,
{
    let whole = wave_format(sample_rate, channels);
    let tag = le_bytes_u16(0xFFFE);
    let count = le_bytes_u16(channels);
    let rate = le_bytes_u32(sample_rate);
    let byte_rate = le_bytes_u32((sample_rate * 4 * channels) as u32);
    let block = le_bytes_u16((4 * channels) as u16);
    let width = le_bytes_u16(32);
    let none = Seq::<u8>::empty();
    assert(read_u16_le(whole, 0) == 0xFFFE) by {
        lemma_read_u16_between(none, 0xFFFE, count + rate + byte_rate + block + width);
        assert(whole =~= none + tag + (count + rate + byte_rate + block + width));
    }
    assert(read_u16_le(whole, 2) == channels) by {
        lemma_read_u16_between(tag, channels, rate + byte_rate + block + width);
        assert(whole =~= tag + count + (rate + byte_rate + block + width));
    }
    assert(read_u32_le(whole, 4) == sample_rate) by {
        lemma_read_u32_between(tag + count, sample_rate, byte_rate + block + width);
        assert(whole =~= tag + count + rate + (byte_rate + block + width));
    }
    assert(read_u16_le(whole, 12) == 4 * channels) by {
        lemma_read_u16_between(tag + count + rate + byte_rate, (4 * channels) as u16, width);
    }
    assert(read_u16_le(whole, 14) == 32) by {
        lemma_read_u16_between(tag + count + rate + byte_rate + block, 32, none);
        assert(whole =~= tag + count + rate + byte_rate + block + width + none);
    }
}

/// What stands in the extension, read at its own offsets.
proof fn lemma_format_extension_fields(channels: u16)
    ensures
        read_u16_le(format_extension(channels), 2) == 32,
        format_extension(channels).subrange(8, 24) == float_subformat(),
{
    let whole = format_extension(channels);
    let size = le_bytes_u16(22);
    let mask = le_bytes_u32(channel_mask(channels));
    assert(read_u16_le(whole, 2) == 32) by {
        lemma_read_u16_between(size, 32, mask + float_subformat());
        assert(whole =~= size + le_bytes_u16(32) + (mask + float_subformat()));
    }
    assert(whole.subrange(8, 24) =~= float_subformat());
}

/// What stands in the data chunk's introduction, read at its own offset.
proof fn lemma_data_intro_fields(data_len: u32)
    ensures
        read_u32_le(data_intro(data_len), 4) == data_len,
{
    let tag = seq![0x64u8, 0x61, 0x74, 0x61];
    let none = Seq::<u8>::empty();
    lemma_read_u32_between(tag, data_len, none);
    assert(data_intro(data_len) =~= tag + le_bytes_u32(data_len) + none);
}

/// The header is 68 bytes long and its fields read back as they were written.
pub proof fn lemma_header_fields(sample_rate: u32, channels: u16, data_len: u32)
    requires
        1 <= channels <= 16383,
        data_len + 60 <= u32::MAX,
    ensures
        header(sample_rate, channels, data_len).len() == 68,
        declared_channels(header(sample_rate, channels, data_len)) == channels,
        declared_sample_rate(header(sample_rate, channels, data_len)) == sample_rate,
        declared_bits_per_sample(header(sample_rate, channels, data_len)) == 32,
        declares_float(header(sample_rate, channels, data_len)),
        declared_data_len(header(sample_rate, channels, data_len)) == data_len,
{
    let h = header(sample_rate, channels, data_len);
    let format = wave_format(sample_rate, channels);
    let extension = format_extension(channels);
    let data = data_intro(data_len);
    lemma_part_lengths(sample_rate, channels, data_len);
    lemma_wave_format_fields(sample_rate, channels);
    lemma_format_extension_fields(channels);
    lemma_data_intro_fields(data_len);
    assert(h.len() == 68);
    assert(h.subrange(20, 36) =~= format);
    assert(h.subrange(36, 60) =~= extension);
    assert(h.subrange(60, 68) =~= data);
    assert forall|k: int| 0 <= k < 16 implies h[20 + k] == format[k] by {
        assert(h.subrange(20, 36)[k] == h[20 + k]);
    }
    assert forall|k: int| 0 <= k < 24 implies h[36 + k] == extension[k] by {
        assert(h.subrange(36, 60)[k] == h[36 + k]);
    }
    assert forall|k: int| 0 <= k < 8 implies h[60 + k] == data[k] by {
        assert(h.subrange(60, 68)[k] == h[60 + k]);
    }
    assert(h[22] == format[2] && h[23] == format[3]);
    assert(h[20] == format[0] && h[21] == format[1]);
    assert(h[24] == format[4] && h[25] == format[5] && h[26] == format[6] && h[27] == format[7]);
    assert(h[34] == format[14] && h[35] == format[15]);
    assert(h[38] == extension[2] && h[39] == extension[3]);
    assert(h[64] == data[4] && h[65] == data[5] && h[66] == data[6] && h[67] == data[7]);
    assert(h.subrange(44, 60) =~= extension.subrange(8, 24));
}

/// Encoding loses nothing: a container made from samples, a rate and a
/// channel count declares that rate and channel count, 32-bit binary32
/// samples and the payload's length, and a decoder reads from it exactly the
/// patterns of the samples, in order.
pub proof fn lemma_round_trip(samples: Seq<u32>, sample_rate: u32, channels: u16)
    requires
        encodable(samples.len(), sample_rate, channels),
    ensures
        container(samples, sample_rate, channels).len() == 68 + 4 * samples.len(),
        declared_channels(container(samples, sample_rate, channels)) == channels,
        declared_sample_rate(container(samples, sample_rate, channels)) == sample_rate,
        declared_bits_per_sample(container(samples, sample_rate, channels)) == 32,
        declares_float(container(samples, sample_rate, channels)),
        declared_data_len(container(samples, sample_rate, channels)) == 4 * samples.len(),
        decoded_patterns(container(samples, sample_rate, channels)) == samples,
{
    let data_len = (4 * samples.len()) as u32;
    let h = header(sample_rate, channels, data_len);
    let c = container(samples, sample_rate, channels);
    lemma_header_fields(sample_rate, channels, data_len);
    lemma_payload_len(samples);
    assert(c.subrange(44, 60) =~= h.subrange(44, 60));
    assert forall|i: int| 0 <= i < samples.len() implies #[trigger] decoded_patterns(c)[i]
        == samples[i] by {
        lemma_payload_layout(samples, i);
        assert(c[68 + 4 * i] == payload(samples)[4 * i]);
        assert(c[68 + 4 * i + 1] == payload(samples)[4 * i + 1]);
        assert(c[68 + 4 * i + 2] == payload(samples)[4 * i + 2]);
        assert(c[68 + 4 * i + 3] == payload(samples)[4 * i + 3]);
    }
    assert(decoded_patterns(c) =~= samples);
}

} // verus!
