//! The uncompressed container (RIFF/WAVE, 16-bit integer PCM) that drained
//! chunks are encoded into.
use vstd::prelude::*;
use vstd::arithmetic::power2::pow2;

verus! {

/// Largest number of samples whose data chunk and file length still fit the
/// container's 32-bit length fields.
pub const MAX_WAV_SAMPLES: usize = 2_147_483_617;

/// Two little-endian bytes of `x`.
pub open spec fn le16(x: int) -> Seq<u8> {
    seq![(x % 256) as u8, ((x / 256) % 256) as u8]
}

/// Four little-endian bytes of `x`.
pub open spec fn le32(x: int) -> Seq<u8> {
    seq![
        (x % 256) as u8,
        ((x / 256) % 256) as u8,
        ((x / 65536) % 256) as u8,
        ((x / 16777216) % 256) as u8,
    ]
}

/// A sample as two's-complement little-endian bytes.
pub open spec fn sample_le(x: i16) -> Seq<u8> {
    le16(if x < 0 { x + 65536 } else { x as int })
}

/// Interleaved samples as they stand in the data chunk.
pub open spec fn pcm_bytes(s: Seq<i16>) -> Seq<u8>
    decreases s.len(),
{
    if s.len() == 0 {
        Seq::empty()
    } else {
        pcm_bytes(s.drop_last()) + sample_le(s.last())
    }
}

/// Speaker mask of the extensible format: one bit per channel, at most 18.
pub open spec fn channel_mask(ch: int) -> int {
    pow2(if ch > 18 { 18nat } else { ch as nat }) - 1
}

/// The sub-format identifier of integer PCM in the extensible format.
pub open spec fn pcm_subformat() -> Seq<u8> {
    seq![
        0x01u8, 0x00, 0x00, 0x00, 0x00, 0x00, 0x10, 0x00,
        0x80, 0x00, 0x00, 0xaa, 0x00, 0x38, 0x9b, 0x71,
    ]
}

/// Body of the `fmt ` chunk, its size field included. Up to two channels
/// the plain PCM structure is used, above that the extensible one.
pub open spec fn fmt_body(rate: int, ch: int) -> Seq<u8> {
    let common = le16(ch) + le32(rate) + le32(rate * 2 * ch) + le16((2 * ch) % 65536) + le16(16);
    if ch <= 2 {
        le32(16) + le16(1) + common
    } else {
        le32(40) + le16(0xfffe) + common + le16(22) + le16(16) + le32(channel_mask(ch))
            + pcm_subformat()
    }
}

/// Length of everything before the first sample.
pub open spec fn header_len(ch: int) -> int {
    if ch <= 2 {
        44
    } else {
        68
    }
}

/// Bytes before the first sample of a file holding `n` samples.
pub open spec fn wav_header(rate: int, ch: int, n: int) -> Seq<u8> {
    seq![0x52u8, 0x49, 0x46, 0x46] + le32(header_len(ch) - 8 + 2 * n) + seq![
        0x57u8,
        0x41,
        0x56,
        0x45,
    ] + seq![0x66u8, 0x6d, 0x74, 0x20] + fmt_body(rate, ch) + seq![0x64u8, 0x61, 0x74, 0x61]
        + le32(2 * n)
}

/// The complete container for `s` at `rate` Hz with `ch` channels.
pub open spec fn wav_bytes(rate: int, ch: int, s: Seq<i16>) -> Seq<u8> {
    wav_header(rate, ch, s.len() as int) + pcm_bytes(s)
}

/// What the container's fields can hold: a positive rate and channel count,
/// a byte rate within 32 bits, whole frames, and a length within 32 bits.
pub open spec fn wav_encodable(rate: int, ch: int, n: int) -> bool {
    &&& rate > 0
    &&& ch > 0
    &&& rate * 2 * ch <= u32::MAX
    &&& n % ch == 0
    &&& 0 <= n <= MAX_WAV_SAMPLES
}

/// Relies on hound's `WavWriter` (`new`, `write_sample`, `finalize`) over an
/// in-memory cursor: the header it writes for 16-bit integer samples,
/// followed by the samples in little-endian order.
#[verifier::external_body]
pub(crate) fn create_wav_data(sample_rate: u32, channels: u16, samples: &Vec<i16>) -> (r: Vec<u8>)
    requires
        wav_encodable(sample_rate as int, channels as int, samples@.len() as int),
    ensures
        r@ == wav_bytes(sample_rate as int, channels as int, samples@),
{
    let spec = hound::WavSpec {
        channels,
        sample_rate,
        bits_per_sample: 16,
        sample_format: hound::SampleFormat::Int,
    };
    let mut cursor = std::io::Cursor::new(Vec::new());
    let mut writer = hound::WavWriter::new(&mut cursor, spec).unwrap();
    for &s in samples.iter() {
        writer.write_sample(s).unwrap();
    }
    writer.finalize().unwrap();
    cursor.into_inner()
}

/// A little-endian 16-bit field of `b` at `at`.
pub open spec fn read_le16(b: Seq<u8>, at: int) -> int {
    b[at] + 256 * b[at + 1]
}

/// A little-endian 32-bit field of `b` at `at`.
pub open spec fn read_le32(b: Seq<u8>, at: int) -> int {
    read_le16(b, at) + 65536 * read_le16(b, at + 2)
}

/// A two's-complement sample of `b` at `at`.
pub open spec fn read_sample(b: Seq<u8>, at: int) -> i16 {
    let w = read_le16(b, at);
    (if w >= 32768 { w - 65536 } else { w }) as i16
}

/// The samples of a data chunk, two bytes each.
pub open spec fn decoded_samples(data: Seq<u8>) -> Seq<i16> {
    Seq::new((data.len() / 2) as nat, |i: int| read_sample(data, 2 * i))
}

proof fn lemma_le16_back(x: int)
    requires
        0 <= x < 65536,
    ensures
        read_le16(le16(x), 0) == x,
{
    assert(x == 256 * (x / 256) + x % 256) by (nonlinear_arith)
        requires 0 <= x < 65536;
    assert((x / 256) % 256 == x / 256) by (nonlinear_arith)
        requires 0 <= x < 65536;
}

proof fn lemma_le32_back(x: int)
    requires
        0 <= x <= u32::MAX,
    ensures
        read_le32(le32(x), 0) == x,
{
    assert(x == (x % 256) + 256 * ((x / 256) % 256) + 65536 * ((x / 65536) % 256) + 16777216 * (
    (x / 16777216) % 256)) by (nonlinear_arith)
        requires 0 <= x <= u32::MAX;
}

proof fn lemma_sample_back(x: i16)
    ensures
        read_sample(sample_le(x), 0) == x,
{
    let w = if x < 0 { x + 65536 } else { x as int };
    lemma_le16_back(w);
}

proof fn lemma_pcm_bytes(s: Seq<i16>)
    ensures
        pcm_bytes(s).len() == 2 * s.len(),
        forall|i: int|
            0 <= i < s.len() ==> #[trigger] pcm_bytes(s).subrange(2 * i, 2 * i + 2) == sample_le(
                s[i],
            ),
    decreases s.len(),
{
    if s.len() > 0 {
        let p = s.drop_last();
        lemma_pcm_bytes(p);
        let b = pcm_bytes(s);
        assert(b == pcm_bytes(p) + sample_le(s.last()));
        assert forall|i: int| 0 <= i < s.len() implies #[trigger] b.subrange(2 * i, 2 * i + 2)
            == sample_le(s[i]) by {
            if i < s.len() - 1 {
                assert(s[i] == p[i]);
                assert(b.subrange(2 * i, 2 * i + 2) =~= pcm_bytes(p).subrange(2 * i, 2 * i + 2));
            } else {
                assert(b.subrange(2 * i, 2 * i + 2) =~= sample_le(s.last()));
            }
        }
    }
}

/// Reading a container back gives what it was made from: the channel count,
/// the sample rate, 16 bits per sample, and after the header exactly the
/// samples that were encoded.
pub proof fn lemma_wav_round_trip(rate: u32, ch: u16, s: Seq<i16>)
    requires
        wav_encodable(rate as int, ch as int, s.len() as int),
    ensures
        ({
            let b = wav_bytes(rate as int, ch as int, s);
            let h = header_len(ch as int);
            &&& read_le16(b, 22) == ch
            &&& read_le32(b, 24) == rate
            &&& read_le16(b, 34) == 16
            &&& read_le32(b, h - 4) == 2 * s.len()
            &&& b.len() == h + 2 * s.len()
            &&& decoded_samples(b.subrange(h, b.len() as int)) == s
        }),
{
    let b = wav_bytes(rate as int, ch as int, s);
    let h = header_len(ch as int);
    let hd = wav_header(rate as int, ch as int, s.len() as int);
    lemma_pcm_bytes(s);
    assert(hd.len() == h);
    assert(b.subrange(h, b.len() as int) =~= pcm_bytes(s));
    assert(b.subrange(22, 24) =~= le16(ch as int));
    assert(b.subrange(24, 28) =~= le32(rate as int));
    assert(b.subrange(34, 36) =~= le16(16));
    assert(b.subrange(h - 4, h) =~= le32(2 * s.len() as int));
    lemma_le16_back(ch as int);
    lemma_le16_back(16);
    lemma_le32_back(rate as int);
    lemma_le32_back(2 * s.len() as int);
    let d = pcm_bytes(s);
    assert forall|i: int| 0 <= i < s.len() implies #[trigger] read_sample(d, 2 * i) == s[i] by {
        assert(d.subrange(2 * i, 2 * i + 2) == sample_le(s[i]));
        lemma_sample_back(s[i]);
    }
    assert(decoded_samples(d) =~= s);
}

} // verus!
