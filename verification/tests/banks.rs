use lib::sample_bank::{load_bank, parse_format, read_u16_le, read_u32_le, split_hits, SampleEncoding, HIT_COUNT};

fn chunk(id: &[u8; 4], body: &[u8]) -> Vec<u8> {
    let mut v = id.to_vec();
    v.extend_from_slice(&(body.len() as u32).to_le_bytes());
    v.extend_from_slice(body);
    if body.len() % 2 == 1 {
        v.push(0);
    }
    v
}

fn fmt_body(format: u16, channels: u16, rate: u32, bits: u16) -> Vec<u8> {
    let mut b = Vec::new();
    b.extend_from_slice(&format.to_le_bytes());
    b.extend_from_slice(&channels.to_le_bytes());
    b.extend_from_slice(&rate.to_le_bytes());
    b.extend_from_slice(&0u32.to_le_bytes());
    b.extend_from_slice(&0u16.to_le_bytes());
    b.extend_from_slice(&bits.to_le_bytes());
    b
}

fn wav(chunks: &[Vec<u8>]) -> Vec<u8> {
    let mut body = b"WAVE".to_vec();
    for c in chunks {
        body.extend_from_slice(c);
    }
    let mut v = b"RIFF".to_vec();
    v.extend_from_slice(&(body.len() as u32).to_le_bytes());
    v.extend_from_slice(&body);
    v
}

#[test]
fn little_endian_reads() {
    let b = [0x34u8, 0x12, 0x78, 0x56, 0xff];
    assert_eq!(read_u16_le(&b, 0), Some(0x1234));
    assert_eq!(read_u16_le(&b, 3), Some(0xff56));
    assert_eq!(read_u16_le(&b, 4), None);
    assert_eq!(read_u16_le(&b, usize::MAX), None);
    assert_eq!(read_u32_le(&b, 0), Some(0x5678_1234));
    assert_eq!(read_u32_le(&b, 1), Some(0xff56_7812));
    assert_eq!(read_u32_le(&b, 2), None);
    assert_eq!(read_u32_le(&[], 0), None);
}

#[test]
fn float_bank_splits_into_eight_hits() {
    let samples: Vec<f32> = (0..20).map(|i| i as f32 * 0.25).collect();
    let mut data = Vec::new();
    for s in &samples {
        data.extend_from_slice(&s.to_le_bytes());
    }
    let file = wav(&[chunk(b"fmt ", &fmt_body(3, 1, 48000, 32)), chunk(b"data", &data)]);
    let bank = load_bank(&file);
    assert_eq!(bank.source_rate, 48000);
    assert_eq!(bank.encoding, SampleEncoding::Float32);
    assert_eq!(bank.hits.len(), HIT_COUNT);
    // 20 samples / 8 hits = 2 per hit; the last 4 are dropped.
    for h in 0..HIT_COUNT {
        let got: Vec<f32> = bank.hits[h].iter().map(|w| f32::from_bits(*w)).collect();
        assert_eq!(got, vec![samples[2 * h], samples[2 * h + 1]]);
    }
}

#[test]
fn pcm16_stereo_bank_reads_the_left_channel() {
    let mut data = Vec::new();
    for i in 0..8i16 {
        data.extend_from_slice(&(i * 1000 - 4000).to_le_bytes());
        data.extend_from_slice(&7i16.to_le_bytes());
    }
    let file = wav(&[
        chunk(b"LIST", b"abc"),
        chunk(b"fmt ", &fmt_body(1, 2, 44100, 16)),
        chunk(b"data", &data),
    ]);
    let bank = load_bank(&file);
    assert_eq!(bank.encoding, SampleEncoding::Pcm16);
    assert_eq!(bank.source_rate, 44100);
    for h in 0..HIT_COUNT {
        assert_eq!(bank.hits[h].len(), 1);
        let code = bank.hits[h][0] as u16 as i16;
        assert_eq!(code, h as i16 * 1000 - 4000);
    }
}

#[test]
fn header_defaults_without_fmt_chunk() {
    let file = wav(&[chunk(b"data", &[0u8; 64])]);
    let f = parse_format(&file);
    assert_eq!(f.audio_format, 3);
    assert_eq!(f.channels, 1);
    assert_eq!(f.source_rate, 44100);
    assert_eq!(f.bits_per_sample, 32);
    assert_eq!(f.data, Some((20, 64)));
    let bank = load_bank(&file);
    assert_eq!(bank.encoding, SampleEncoding::Float32);
    assert!(bank.hits.iter().all(|h| h.len() == 2));
}

#[test]
fn unsupported_or_broken_files_are_silent() {
    // Not a RIFF file.
    let bank = load_bank(b"hello world, not a wave file");
    assert_eq!(bank.encoding, SampleEncoding::Unsupported);
    assert_eq!(bank.source_rate, 44100);
    assert_eq!(bank.hits.len(), HIT_COUNT);
    assert!(bank.hits.iter().all(|h| h.is_empty()));
    // 24-bit PCM is not decoded.
    let file = wav(&[chunk(b"fmt ", &fmt_body(1, 1, 44100, 24)), chunk(b"data", &[1u8; 48])]);
    let bank = load_bank(&file);
    assert_eq!(bank.encoding, SampleEncoding::Unsupported);
    assert!(bank.hits.iter().all(|h| h.is_empty()));
    // A data chunk that claims more bytes than the file holds is ignored.
    let mut file = wav(&[chunk(b"fmt ", &fmt_body(3, 1, 22050, 32))]);
    file.extend_from_slice(b"data");
    file.extend_from_slice(&1000u32.to_le_bytes());
    file.extend_from_slice(&[0u8; 16]);
    let f = parse_format(&file);
    assert_eq!(f.source_rate, 22050);
    assert_eq!(f.data, None);
    let bank = load_bank(&file);
    assert_eq!(bank.encoding, SampleEncoding::Unsupported);
    assert_eq!(bank.source_rate, 22050);
    // Empty input.
    let bank = load_bank(&[]);
    assert!(bank.hits.iter().all(|h| h.is_empty()));
}

#[test]
fn odd_chunks_are_padded() {
    let file = wav(&[
        chunk(b"junk", &[9u8; 5]),
        chunk(b"fmt ", &fmt_body(3, 1, 32000, 32)),
        chunk(b"data", &[0u8; 32]),
    ]);
    let f = parse_format(&file);
    assert_eq!(f.source_rate, 32000);
    assert_eq!(f.data, Some((12 + 14 + 24 + 8, 32)));
}

#[test]
fn fewer_samples_than_hits_gives_empty_hits() {
    let file = wav(&[chunk(b"fmt ", &fmt_body(3, 1, 44100, 32)), chunk(b"data", &[0u8; 28])]);
    let bank = load_bank(&file);
    assert!(bank.hits.iter().all(|h| h.is_empty()));
}

#[test]
fn split_hits_slices_evenly() {
    let samples: Vec<u32> = (0..17).collect();
    let hits = split_hits(&samples);
    assert_eq!(hits.len(), 8);
    assert_eq!(hits[0], vec![0, 1]);
    assert_eq!(hits[7], vec![14, 15]);
}
