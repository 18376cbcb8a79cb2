//! Decoding of the embedded multisample banks: a RIFF/WAVE file holding the
//! hits of one instrument back to back at even spacing. The samples come out
//! as their raw little-endian words (IEEE float bits, or 16-bit PCM codes)
//! split into the hits; turning them into audio values is left to the caller.
use vstd::prelude::*;

verus! {

/// Hits per bank.
pub const HIT_COUNT: usize = 8;

/// Little-endian 16-bit word at `off`, when two bytes are there.
pub open spec fn read_u16_le_spec(bytes: Seq<u8>, off: int) -> Option<u16> {
    if 0 <= off && off + 2 <= bytes.len() {
        Some((bytes[off] as int + 256 * bytes[off + 1] as int) as u16)
    } else {
        None
    }
}

/// Little-endian 32-bit word at `off`, when four bytes are there.
pub open spec fn read_u32_le_spec(bytes: Seq<u8>, off: int) -> Option<u32> {
    if 0 <= off && off + 4 <= bytes.len() {
        Some(
            (bytes[off] as int + 256 * bytes[off + 1] as int + 65536 * bytes[off + 2] as int
                + 16777216 * bytes[off + 3] as int) as u32,
        )
    } else {
        None
    }
}

/// Reads a little-endian `u16` at `off`; `None` when the slice is too short.
pub fn read_u16_le(bytes: &[u8], off: usize) -> (r: Option<u16>)
    ensures
        r == read_u16_le_spec(bytes@, off as int),
{
    if off < bytes.len() && bytes.len() - off >= 2 {
        let b0 = bytes[off] as u16;
        let b1 = bytes[off + 1] as u16;
        Some(b0 + 256 * b1)
    } else {
        None
    }
}

/// Reads a little-endian `u32` at `off`; `None` when the slice is too short.
pub fn read_u32_le(bytes: &[u8], off: usize) -> (r: Option<u32>)
    ensures
        r == read_u32_le_spec(bytes@, off as int),
{
    if off < bytes.len() && bytes.len() - off >= 4 {
        let b0 = bytes[off] as u32;
        let b1 = bytes[off + 1] as u32;
        let b2 = bytes[off + 2] as u32;
        let b3 = bytes[off + 3] as u32;
        Some(b0 + 256 * b1 + 65536 * b2 + 16777216 * b3)
    } else {
        None
    }
}

/// Sample format and data location of a bank, as read from its header.
/// Fields missing from the file keep the values of a mono 44.1 kHz float
/// file.
#[derive(Clone, Copy, Debug)]
pub struct WavFormat {
    pub audio_format: u16,
    pub channels: u16,
    pub source_rate: u32,
    pub bits_per_sample: u16,
    /// Offset and length in bytes of the `data` chunk, when one was found.
    pub data: Option<(usize, usize)>,
}

/// Header values assumed before any chunk is read.
pub open spec fn default_format() -> WavFormat {
    WavFormat {
        audio_format: 3,
        channels: 1,
        source_rate: 44100,
        bits_per_sample: 32,
        data: None,
    }
}

/// The four bytes at `pos` are `a b c d`.
pub open spec fn tag_at(bytes: Seq<u8>, pos: int, a: u8, b: u8, c: u8, d: u8) -> bool {
    &&& 0 <= pos
    &&& pos + 4 <= bytes.len()
    &&& bytes[pos] == a
    &&& bytes[pos + 1] == b
    &&& bytes[pos + 2] == c
    &&& bytes[pos + 3] == d
}

/// The file starts with a `RIFF` header of type `WAVE`.
pub open spec fn is_riff_wave(bytes: Seq<u8>) -> bool {
    &&& bytes.len() >= 12
    &&& tag_at(bytes, 0, 0x52, 0x49, 0x46, 0x46)
    &&& tag_at(bytes, 8, 0x57, 0x41, 0x56, 0x45)
}

/// Chunk `fmt ` at `pos`.
pub open spec fn is_fmt_chunk(bytes: Seq<u8>, pos: int) -> bool {
    tag_at(bytes, pos, 0x66, 0x6d, 0x74, 0x20)
}

/// Chunk `data` at `pos`.
pub open spec fn is_data_chunk(bytes: Seq<u8>, pos: int) -> bool {
    tag_at(bytes, pos, 0x64, 0x61, 0x74, 0x61)
}

/// Declared body size of the chunk whose header starts at `pos`.
pub open spec fn chunk_size(bytes: Seq<u8>, pos: int) -> int {
    match read_u32_le_spec(bytes, pos + 4) {
        Some(v) => v as int,
        None => 0,
    }
}

/// Format fields taken from a `fmt ` chunk body at `body`; a field that
/// cannot be read keeps its default.
pub open spec fn with_fmt(bytes: Seq<u8>, body: int, f: WavFormat) -> WavFormat {
    WavFormat {
        audio_format: match read_u16_le_spec(bytes, body) {
            Some(v) => v,
            None => 3,
        },
        channels: match read_u16_le_spec(bytes, body + 2) {
            Some(v) => v,
            None => 1,
        },
        source_rate: match read_u32_le_spec(bytes, body + 4) {
            Some(v) => v,
            None => 44100,
        },
        bits_per_sample: match read_u16_le_spec(bytes, body + 14) {
            Some(v) => v,
            None => 32,
        },
        data: f.data,
    }
}

/// Walks the chunks from `pos` on: a `fmt ` chunk sets the format, the first
/// `data` chunk ends the walk, others are skipped (bodies are padded to an
/// even length). The walk stops at a truncated header or a chunk whose body
/// runs past the end of the file.
pub open spec fn scan_chunks(bytes: Seq<u8>, pos: int, f: WavFormat) -> WavFormat
    decreases bytes.len() - pos,
{
    if pos < 0 || pos + 8 > bytes.len() {
        f
    } else {
        let size = chunk_size(bytes, pos);
        let body = pos + 8;
        if body + size > bytes.len() {
            f
        } else if is_data_chunk(bytes, pos) {
            WavFormat { data: Some((body as usize, size as usize)), ..f }
        } else {
            let g = if is_fmt_chunk(bytes, pos) {
                with_fmt(bytes, body, f)
            } else {
                f
            };
            let next = body + size + size % 2;
            if next + 8 > bytes.len() {
                g
            } else {
                scan_chunks(bytes, next, g)
            }
        }
    }
}

/// Header of a bank file: the defaults, updated by the chunks of a
/// `RIFF`/`WAVE` file; any other file keeps the defaults and has no data.
pub open spec fn parse_format_spec(bytes: Seq<u8>) -> WavFormat {
    if is_riff_wave(bytes) {
        scan_chunks(bytes, 12, default_format())
    } else {
        default_format()
    }
}

/// A data range found by the walk lies inside the file.
proof fn lemma_scan_data_in_bounds(bytes: Seq<u8>, pos: int, f: WavFormat)
    requires
        f.data matches Some((o, n)) ==> o + n <= bytes.len(),
    ensures
        scan_chunks(bytes, pos, f).data matches Some((o, n)) ==> o + n <= bytes.len(),
    decreases bytes.len() - pos,
{
    if pos < 0 || pos + 8 > bytes.len() {
    } else {
        let size = chunk_size(bytes, pos);
        let body = pos + 8;
        if body + size > bytes.len() {
        } else if is_data_chunk(bytes, pos) {
        } else {
            let g = if is_fmt_chunk(bytes, pos) {
                with_fmt(bytes, body, f)
            } else {
                f
            };
            let next = body + size + size % 2;
            if next + 8 <= bytes.len() {
                lemma_scan_data_in_bounds(bytes, next, g);
            }
        }
    }
}

/// The header of a bank file always places its data inside the file.
pub proof fn lemma_format_data_in_bounds(bytes: Seq<u8>)
    ensures
        parse_format_spec(bytes).data matches Some((o, n)) ==> o + n <= bytes.len(),
{
    if is_riff_wave(bytes) {
        lemma_scan_data_in_bounds(bytes, 12, default_format());
    }
}

fn tag_matches(bytes: &[u8], pos: usize, a: u8, b: u8, c: u8, d: u8) -> (r: bool)
    ensures
        r == tag_at(bytes@, pos as int, a, b, c, d),
{
    if pos < bytes.len() && bytes.len() - pos >= 4 {
        bytes[pos] == a && bytes[pos + 1] == b && bytes[pos + 2] == c && bytes[pos + 3] == d
    } else {
        false
    }
}

fn read_u16_at(bytes: &[u8], base: usize, delta: usize) -> (r: Option<u16>)
    ensures
        r == read_u16_le_spec(bytes@, base + delta),
{
    if base <= usize::MAX - delta {
        read_u16_le(bytes, base + delta)
    } else {
        let n = bytes.len();
        assert(n == bytes@.len());
        None
    }
}

fn read_u32_at(bytes: &[u8], base: usize, delta: usize) -> (r: Option<u32>)
    ensures
        r == read_u32_le_spec(bytes@, base + delta),
{
    if base <= usize::MAX - delta {
        read_u32_le(bytes, base + delta)
    } else {
        let n = bytes.len();
        assert(n == bytes@.len());
        None
    }
}

fn read_fmt(bytes: &[u8], body: usize, f: WavFormat) -> (g: WavFormat)
    ensures
        g == with_fmt(bytes@, body as int, f),
{
    WavFormat {
        audio_format: match read_u16_at(bytes, body, 0) {
            Some(v) => v,
            None => 3,
        },
        channels: match read_u16_at(bytes, body, 2) {
            Some(v) => v,
            None => 1,
        },
        source_rate: match read_u32_at(bytes, body, 4) {
            Some(v) => v,
            None => 44100,
        },
        bits_per_sample: match read_u16_at(bytes, body, 14) {
            Some(v) => v,
            None => 32,
        },
        data: f.data,
    }
}

/// Reads the header of a bank file.
pub fn parse_format(bytes: &[u8]) -> (f: WavFormat)
    ensures
        f == parse_format_spec(bytes@),
{
    let len = bytes.len();
    let mut f = WavFormat {
        audio_format: 3,
        channels: 1,
        source_rate: 44100,
        bits_per_sample: 32,
        data: None,
    };
    let riff = len >= 12 && tag_matches(bytes, 0, 0x52, 0x49, 0x46, 0x46) && tag_matches(
        bytes,
        8,
        0x57,
        0x41,
        0x56,
        0x45,
    );
    if !riff {
        return f;
    }
    let mut pos: usize = 12;
    while pos <= len && len - pos >= 8
        invariant
            len == bytes@.len(),
            is_riff_wave(bytes@),
            scan_chunks(bytes@, pos as int, f) == parse_format_spec(bytes@),
        decreases len - pos,
    {
        let size: usize = match read_u32_le(bytes, pos + 4) {
            Some(v) => v as usize,
            None => 0,
        };
        let body = pos + 8;
        if size > len - body {
            return f;
        }
        if tag_matches(bytes, pos, 0x64, 0x61, 0x74, 0x61) {
            return WavFormat { data: Some((body, size)), ..f };
        }
        if tag_matches(bytes, pos, 0x66, 0x6d, 0x74, 0x20) {
            f = read_fmt(bytes, body, f);
        }
        let mut next = body + size;
        if size % 2 == 1 {
            if next >= len {
                return f;
            }
            next = next + 1;
        }
        if next > len || len - next < 8 {
            return f;
        }
        pos = next;
    }
    f
}

/// How the samples of a bank are stored.
#[derive(Clone, Copy, Debug, PartialEq, Eq, Structural)]
pub enum SampleEncoding {
    /// 32-bit IEEE float; each sample is kept as its bit pattern.
    Float32,
    /// 16-bit signed PCM; each sample is kept as its 16-bit code.
    Pcm16,
    /// No data chunk, or a format that is not decoded: the bank is silent.
    Unsupported,
}

/// Encoding of the samples described by a header.
pub open spec fn encoding_of(f: WavFormat) -> SampleEncoding {
    if f.data is Some && f.audio_format == 3 && f.bits_per_sample == 32 {
        SampleEncoding::Float32
    } else if f.data is Some && f.audio_format == 1 && f.bits_per_sample == 16 {
        SampleEncoding::Pcm16
    } else {
        SampleEncoding::Unsupported
    }
}

/// Bytes per frame (all channels); only the first channel of a frame is
/// read. A header with zero channels counts as mono.
pub open spec fn frame_bytes(f: WavFormat) -> int {
    let ch: int = if f.channels == 0 {
        1
    } else {
        f.channels as int
    };
    match encoding_of(f) {
        SampleEncoding::Float32 => 4 * ch,
        SampleEncoding::Pcm16 => 2 * ch,
        SampleEncoding::Unsupported => 1,
    }
}

/// Raw word of the sample starting at byte `o`.
pub open spec fn sample_word(bytes: Seq<u8>, f: WavFormat, o: int) -> u32 {
    match encoding_of(f) {
        SampleEncoding::Float32 => match read_u32_le_spec(bytes, o) {
            Some(v) => v,
            None => 0,
        },
        SampleEncoding::Pcm16 => match read_u16_le_spec(bytes, o) {
            Some(v) => v as u32,
            None => 0,
        },
        SampleEncoding::Unsupported => 0,
    }
}

/// Number of whole frames in the data chunk (none when the format is not
/// decoded).
pub open spec fn frame_count(f: WavFormat) -> nat {
    match f.data {
        Some((_, n)) => if encoding_of(f) == SampleEncoding::Unsupported {
            0
        } else {
            (n as int / frame_bytes(f)) as nat
        },
        None => 0,
    }
}

/// All samples of the bank, first channel of each frame, in file order.
pub open spec fn decoded_samples(bytes: Seq<u8>, f: WavFormat) -> Seq<u32> {
    let off: int = match f.data {
        Some((o, _)) => o as int,
        None => 0,
    };
    Seq::new(frame_count(f), |i: int| sample_word(bytes, f, off + i * frame_bytes(f)))
}

/// Samples per hit: the bank holds `HIT_COUNT` hits of equal length, and a
/// remainder shorter than one sample per hit is dropped.
pub open spec fn hit_len(total: nat) -> nat {
    total / (HIT_COUNT as nat)
}

/// Hit `h` of a bank: its slot in the evenly spaced sample sequence.
pub open spec fn hit_slice(samples: Seq<u32>, h: int) -> Seq<u32> {
    let l = hit_len(samples.len()) as int;
    samples.subrange(h * l, (h + 1) * l)
}

/// A decoded bank: the source sample rate, how its words are to be read and
/// the raw words of each hit.
pub struct RawBank {
    pub source_rate: u32,
    pub encoding: SampleEncoding,
    pub hits: Vec<Vec<u32>>,
}

proof fn lemma_frame_in_data(i: int, count: int, frame: int, n: int)
    requires
        0 <= i < count,
        frame > 0,
        n >= 0,
        count == n / frame,
    ensures
        i * frame + frame <= n,
        0 <= i * frame,
{
    assert(i * frame + frame <= count * frame) by (nonlinear_arith)
        requires
            0 <= i < count,
            frame > 0,
    ;
    assert(count * frame <= n) by (nonlinear_arith)
        requires
            frame > 0,
            n >= 0,
            count == n / frame,
    ;
    assert(0 <= i * frame) by (nonlinear_arith)
        requires
            0 <= i,
            frame > 0,
    ;
}

/// Decodes the samples a header describes.
fn decode_samples(bytes: &[u8], f: WavFormat) -> (v: Vec<u32>)
    requires
        f.data matches Some((o, n)) ==> o + n <= bytes@.len(),
    ensures
        v@ == decoded_samples(bytes@, f),
{
    let mut out: Vec<u32> = Vec::new();
    let float32 = f.audio_format == 3 && f.bits_per_sample == 32;
    let pcm16 = f.audio_format == 1 && f.bits_per_sample == 16;
    match f.data {
        Some((off, len)) => {
            if !float32 && !pcm16 {
                assert(out@ =~= decoded_samples(bytes@, f));
                return out;
            }
            let ch: usize = if f.channels == 0 {
                1
            } else {
                f.channels as usize
            };
            let frame: usize = if float32 {
                4 * ch
            } else {
                2 * ch
            };
            assert(frame as int == frame_bytes(f));
            let count = len / frame;
            assert(count == frame_count(f));
            let total = bytes.len();
            assert(total == bytes@.len());
            let mut i: usize = 0;
            while i < count
                invariant
                    f.data == Some((off, len)),
                    off + len <= bytes@.len(),
                    bytes@.len() <= usize::MAX,
                    float32 == (encoding_of(f) == SampleEncoding::Float32),
                    pcm16 == (encoding_of(f) == SampleEncoding::Pcm16),
                    float32 || pcm16,
                    frame as int == frame_bytes(f),
                    frame > 0,
                    frame <= 4 * 65535,
                    count == len / frame,
                    count == frame_count(f),
                    i <= count,
                    out@.len() == i,
                    forall|j: int|
                        0 <= j < i ==> out@[j] == #[trigger] decoded_samples(bytes@, f)[j],
                decreases count - i,
            {
                proof {
                    lemma_frame_in_data(i as int, count as int, frame as int, len as int);
                }
                let o = off + i * frame;
                let w: u32 = if float32 {
                    match read_u32_le(bytes, o) {
                        Some(x) => x,
                        None => 0,
                    }
                } else {
                    match read_u16_le(bytes, o) {
                        Some(x) => x as u32,
                        None => 0,
                    }
                };
                out.push(w);
                i = i + 1;
            }
            assert(out@ =~= decoded_samples(bytes@, f));
            out
        },
        None => {
            assert(out@ =~= decoded_samples(bytes@, f));
            out
        },
    }
}

proof fn lemma_hit_bounds(h: int, l: int, total: int)
    requires
        0 <= h < HIT_COUNT,
        l == total / (HIT_COUNT as int),
        total >= 0,
    ensures
        0 <= h * l,
        h * l <= (h + 1) * l,
        (h + 1) * l <= total,
        (h + 1) * l == h * l + l,
{
    assert(0 <= h * l && h * l <= (h + 1) * l && (h + 1) * l <= 8 * l && (h + 1) * l == h * l
        + l) by (nonlinear_arith)
        requires
            0 <= h < 8,
            l >= 0,
    ;
}

/// Splits the samples of a bank into its evenly spaced hits.
pub fn split_hits(samples: &Vec<u32>) -> (hits: Vec<Vec<u32>>)
    ensures
        hits@.len() == HIT_COUNT,
        forall|h: int| 0 <= h < HIT_COUNT ==> #[trigger] hits@[h]@ == hit_slice(samples@, h),
{
    let l = samples.len() / HIT_COUNT;
    let mut hits: Vec<Vec<u32>> = Vec::new();
    let mut h: usize = 0;
    while h < HIT_COUNT
        invariant
            l == hit_len(samples@.len()),
            samples@.len() <= usize::MAX,
            h <= HIT_COUNT,
            hits@.len() == h,
            forall|k: int| 0 <= k < h ==> #[trigger] hits@[k]@ == hit_slice(samples@, k),
        decreases HIT_COUNT - h,
    {
        proof {
            lemma_hit_bounds(h as int, l as int, samples@.len() as int);
        }
        let start = h * l;
        let stop = start + l;
        let mut hit: Vec<u32> = Vec::new();
        let mut j = start;
        while j < stop
            invariant
                start == h * l,
                stop == (h + 1) * l,
                stop <= samples@.len(),
                start <= j <= stop,
                hit@ =~= samples@.subrange(start as int, j as int),
            decreases stop - j,
        {
            hit.push(samples[j]);
            j = j + 1;
        }
        hits.push(hit);
        h = h + 1;
    }
    hits
}

/// Decodes a bank file into its hits. A file that cannot be decoded gives
/// `HIT_COUNT` empty hits, so the voice stays silent instead of failing.
pub fn load_bank(bytes: &[u8]) -> (b: RawBank)
    ensures
        b.source_rate == parse_format_spec(bytes@).source_rate,
        b.encoding == encoding_of(parse_format_spec(bytes@)),
        b.hits@.len() == HIT_COUNT,
        forall|h: int|
            0 <= h < HIT_COUNT ==> #[trigger] b.hits@[h]@ == hit_slice(
                decoded_samples(bytes@, parse_format_spec(bytes@)),
                h,
            ),
{
    let f = parse_format(bytes);
    proof {
        lemma_format_data_in_bounds(bytes@);
    }
    let samples = decode_samples(bytes, f);
    let hits = split_hits(&samples);
    let encoding = if f.data.is_some() && f.audio_format == 3 && f.bits_per_sample == 32 {
        SampleEncoding::Float32
    } else if f.data.is_some() && f.audio_format == 1 && f.bits_per_sample == 16 {
        SampleEncoding::Pcm16
    } else {
        SampleEncoding::Unsupported
    };
    RawBank { source_rate: f.source_rate, encoding, hits }
}

/// The hits of a bank all have the same length and sit back to back from
/// the first sample: hit `h` is the `h`-th block of `hit_len` samples.
pub proof fn lemma_hits_even(samples: Seq<u32>, h: int)
    requires
        0 <= h < HIT_COUNT,
    ensures
        hit_slice(samples, h).len() == samples.len() / 8,
        forall|j: int|
            0 <= j < samples.len() / 8 ==> #[trigger] hit_slice(samples, h)[j] == samples[h * (
            samples.len() / 8) + j],
{
    lemma_hit_bounds(h, hit_len(samples.len()) as int, samples.len() as int);
}

/// A file that is not a decodable bank yields silent (empty) hits.
pub proof fn lemma_unsupported_is_silent(bytes: Seq<u8>, h: int)
    requires
        encoding_of(parse_format_spec(bytes)) == SampleEncoding::Unsupported,
        0 <= h < HIT_COUNT,
    ensures
        hit_slice(decoded_samples(bytes, parse_format_spec(bytes)), h).len() == 0,
{
    let f = parse_format_spec(bytes);
    assert(decoded_samples(bytes, f).len() == 0);
    lemma_hit_bounds(h, 0, 0);
}

/// Little-endian value of the four bytes at `o`.
pub open spec fn le32_at(bytes: Seq<u8>, o: int) -> int {
    bytes[o] as int + 256 * bytes[o + 1] as int + 65536 * bytes[o + 2] as int + 16777216
        * bytes[o + 3] as int
}

/// Little-endian value of the two bytes at `o`.
pub open spec fn le16_at(bytes: Seq<u8>, o: int) -> int {
    bytes[o] as int + 256 * bytes[o + 1] as int
}

/// A chunk whose id is neither `fmt ` nor `data` is skipped: the walk goes
/// on from the next chunk (past its even-padded body) with the format
/// unchanged, or stops there with the format unchanged.
pub proof fn lemma_other_chunk_skipped(bytes: Seq<u8>, pos: int, f: WavFormat)
    requires
        0 <= pos,
        pos + 8 <= bytes.len(),
        pos + 8 + le32_at(bytes, pos + 4) <= bytes.len(),
        !(bytes[pos] == 0x66 && bytes[pos + 1] == 0x6d && bytes[pos + 2] == 0x74 && bytes[pos
            + 3] == 0x20),
        !(bytes[pos] == 0x64 && bytes[pos + 1] == 0x61 && bytes[pos + 2] == 0x74 && bytes[pos
            + 3] == 0x61),
    ensures
        ({
            let size = le32_at(bytes, pos + 4);
            let next = pos + 8 + size + size % 2;
            scan_chunks(bytes, pos, f) == if next + 8 <= bytes.len() {
                scan_chunks(bytes, next, f)
            } else {
                f
            }
        }),
{
}

/// A `fmt ` chunk sets the format to the little-endian words of its body
/// (format at +0, channels at +2, rate at +4, bits at +14; a word the file
/// is too short for keeps its default) and keeps the data location.
pub proof fn lemma_fmt_chunk_read(bytes: Seq<u8>, pos: int, f: WavFormat)
    requires
        0 <= pos,
        pos + 8 <= bytes.len(),
        pos + 8 + le32_at(bytes, pos + 4) <= bytes.len(),
        bytes[pos] == 0x66,
        bytes[pos + 1] == 0x6d,
        bytes[pos + 2] == 0x74,
        bytes[pos + 3] == 0x20,
    ensures
        ({
            let size = le32_at(bytes, pos + 4);
            let body = pos + 8;
            let next = body + size + size % 2;
            let g = WavFormat {
                audio_format: if body + 2 <= bytes.len() {
                    le16_at(bytes, body) as u16
                } else {
                    3
                },
                channels: if body + 4 <= bytes.len() {
                    le16_at(bytes, body + 2) as u16
                } else {
                    1
                },
                source_rate: if body + 8 <= bytes.len() {
                    le32_at(bytes, body + 4) as u32
                } else {
                    44100
                },
                bits_per_sample: if body + 16 <= bytes.len() {
                    le16_at(bytes, body + 14) as u16
                } else {
                    32
                },
                data: f.data,
            };
            scan_chunks(bytes, pos, f) == if next + 8 <= bytes.len() {
                scan_chunks(bytes, next, g)
            } else {
                g
            }
        }),
{
}

/// A `data` chunk ends the walk and records where its body lies.
pub proof fn lemma_data_chunk_found(bytes: Seq<u8>, pos: int, f: WavFormat)
    requires
        0 <= pos,
        pos + 8 <= bytes.len(),
        pos + 8 + le32_at(bytes, pos + 4) <= bytes.len(),
        bytes[pos] == 0x64,
        bytes[pos + 1] == 0x61,
        bytes[pos + 2] == 0x74,
        bytes[pos + 3] == 0x61,
    ensures
        scan_chunks(bytes, pos, f).data == Some(
            ((pos + 8) as usize, le32_at(bytes, pos + 4) as usize),
        ),
        scan_chunks(bytes, pos, f).audio_format == f.audio_format,
        scan_chunks(bytes, pos, f).channels == f.channels,
        scan_chunks(bytes, pos, f).source_rate == f.source_rate,
        scan_chunks(bytes, pos, f).bits_per_sample == f.bits_per_sample,
{
}

/// A 32-bit float bank holds one sample per frame of `4 * channels` bytes
/// (a header with zero channels counts as mono): sample `i` is the
/// little-endian word at the start of frame `i`, the first channel.
pub proof fn lemma_float32_frames(bytes: Seq<u8>, f: WavFormat, off: usize, n: usize, i: int)
    requires
        f.data == Some((off, n)),
        off + n <= bytes.len(),
        f.audio_format == 3,
        f.bits_per_sample == 32,
    ensures
        ({
            let frame: int = 4 * if f.channels == 0 {
                1
            } else {
                f.channels as int
            };
            &&& decoded_samples(bytes, f).len() == n as int / frame
            &&& 0 <= i < n as int / frame ==> decoded_samples(bytes, f)[i] == le32_at(
                bytes,
                off + i * frame,
            ) as u32
        }),
{
    let frame: int = 4 * if f.channels == 0 {
        1
    } else {
        f.channels as int
    };
    if 0 <= i < n as int / frame {
        lemma_frame_in_data(i, n as int / frame, frame, n as int);
    }
}

/// A 16-bit PCM bank holds one sample per frame of `2 * channels` bytes:
/// sample `i` is the little-endian 16-bit code at the start of frame `i`.
pub proof fn lemma_pcm16_frames(bytes: Seq<u8>, f: WavFormat, off: usize, n: usize, i: int)
    requires
        f.data == Some((off, n)),
        off + n <= bytes.len(),
        f.audio_format == 1,
        f.bits_per_sample == 16,
    ensures
        ({
            let frame: int = 2 * if f.channels == 0 {
                1
            } else {
                f.channels as int
            };
            &&& decoded_samples(bytes, f).len() == n as int / frame
            &&& 0 <= i < n as int / frame ==> decoded_samples(bytes, f)[i] == le16_at(
                bytes,
                off + i * frame,
            ) as u32
        }),
{
    let frame: int = 2 * if f.channels == 0 {
        1
    } else {
        f.channels as int
    };
    if 0 <= i < n as int / frame {
        lemma_frame_in_data(i, n as int / frame, frame, n as int);
    }
}

/// Only a file that starts with `RIFF`, four size bytes and `WAVE` is
/// walked, from its first chunk at byte 12; any other file keeps the
/// defaults (44.1 kHz mono float) and has no data.
pub proof fn lemma_header_gate(bytes: Seq<u8>)
    ensures
        (bytes.len() >= 12 && bytes[0] == 0x52 && bytes[1] == 0x49 && bytes[2] == 0x46 && bytes[3]
            == 0x46 && bytes[8] == 0x57 && bytes[9] == 0x41 && bytes[10] == 0x56 && bytes[11]
            == 0x45) ==> parse_format_spec(bytes) == scan_chunks(
            bytes,
            12,
            WavFormat {
                audio_format: 3,
                channels: 1,
                source_rate: 44100,
                bits_per_sample: 32,
                data: None,
            },
        ),
        !(bytes.len() >= 12 && bytes[0] == 0x52 && bytes[1] == 0x49 && bytes[2] == 0x46
            && bytes[3] == 0x46 && bytes[8] == 0x57 && bytes[9] == 0x41 && bytes[10] == 0x56
            && bytes[11] == 0x45) ==> parse_format_spec(bytes) == (WavFormat {
            audio_format: 3,
            channels: 1,
            source_rate: 44100,
            bits_per_sample: 32,
            data: None,
        }),
{
}

} // verus!
