//! The streaming format: a header with the sample rate, then one record per
//! frame, every multi-byte integer little-endian.
//!
//! ```text
//! stream := header record*
//! header := version:u8 config_marker:u8 sample_rate:u32
//! record := frame_marker:u8 silence_flag:u8 sample_count:u32 sample:i16{sample_count}
//! ```
use vstd::prelude::*;

verus! {

pub const PROTOCOL_VERSION: u8 = 1;

/// Second byte of the header.
pub const CONFIG_MARKER: u8 = 2;

/// First byte of every frame record; differs from `CONFIG_MARKER`.
pub const FRAME_MARKER: u8 = 3;

/// The four little-endian bytes of `n`.
pub open spec fn le32(n: u32) -> Seq<u8> {
    seq![
        (n & 0xff) as u8,
        ((n >> 8u32) & 0xff) as u8,
        ((n >> 16u32) & 0xff) as u8,
        ((n >> 24u32) & 0xff) as u8,
    ]
}

/// The `u32` whose little-endian bytes are these.
pub open spec fn u32_of(b0: u8, b1: u8, b2: u8, b3: u8) -> u32 {
    (b0 as u32) | ((b1 as u32) << 8u32) | ((b2 as u32) << 16u32) | ((b3 as u32) << 24u32)
}

/// The two little-endian bytes of a sample, in two's complement.
pub open spec fn le16(v: i16) -> Seq<u8> {
    seq![((v as u16) & 0xff) as u8, ((v as u16) >> 8u16) as u8]
}

/// The sample whose little-endian bytes are these.
pub open spec fn sample_of(lo: u8, hi: u8) -> i16 {
    ((lo as u16) | ((hi as u16) << 8u16)) as i16
}

/// The samples, two bytes each.
pub open spec fn samples_bytes(s: Seq<i16>) -> Seq<u8> {
    Seq::new(2 * s.len(), |j: int| le16(s[j / 2])[j % 2])
}

/// The samples that these bytes hold, two bytes each; an odd last byte is
/// ignored.
pub open spec fn samples_of(b: Seq<u8>) -> Seq<i16> {
    Seq::new(b.len() / 2, |i: int| sample_of(b[2 * i], b[2 * i + 1]))
}

pub open spec fn flag_byte(silent: bool) -> u8 {
    if silent {
        1
    } else {
        0
    }
}

pub open spec fn header_bytes(sample_rate: u32) -> Seq<u8> {
    seq![PROTOCOL_VERSION, CONFIG_MARKER] + le32(sample_rate)
}

/// The record of one frame: its silence flag and its samples.
pub open spec fn record_bytes(silent: bool, samples: Seq<i16>) -> Seq<u8> {
    seq![FRAME_MARKER, flag_byte(silent)] + le32(samples.len() as u32) + samples_bytes(samples)
}

/// The records of a sequence of frames, in order.
pub open spec fn records_bytes(frames: Seq<(bool, Seq<i16>)>) -> Seq<u8>
    decreases frames.len(),
{
    if frames.len() == 0 {
        Seq::empty()
    } else {
        record_bytes(frames[0].0, frames[0].1) + records_bytes(frames.drop_first())
    }
}

/// A whole stream: the header, then the records.
pub open spec fn stream_bytes(sample_rate: u32, frames: Seq<(bool, Seq<i16>)>) -> Seq<u8> {
    header_bytes(sample_rate) + records_bytes(frames)
}

/// Reads records up to the end of `b`; `None` where the bytes are no
/// sequence of well-formed records.
pub open spec fn parse_records(b: Seq<u8>) -> Option<Seq<(bool, Seq<i16>)>>
    decreases b.len(),
{
    if b.len() == 0 {
        Some(Seq::empty())
    } else if b.len() < 6 || b[0] != FRAME_MARKER || b[1] > 1 {
        None
    } else {
        let n = u32_of(b[2], b[3], b[4], b[5]) as int;
        if b.len() - 6 < 2 * n {
            None
        } else {
            match parse_records(b.subrange(6 + 2 * n, b.len() as int)) {
                Some(rest) => Some(seq![(b[1] == 1, samples_of(b.subrange(6, 6 + 2 * n)))] + rest),
                None => None,
            }
        }
    }
}

/// Reads a whole stream: the sample rate and the frames.
pub open spec fn parse_stream(b: Seq<u8>) -> Option<(u32, Seq<(bool, Seq<i16>)>)> {
    if b.len() < 6 || b[0] != PROTOCOL_VERSION || b[1] != CONFIG_MARKER {
        None
    } else {
        match parse_records(b.subrange(6, b.len() as int)) {
            Some(frames) => Some((u32_of(b[2], b[3], b[4], b[5]), frames)),
            None => None,
        }
    }
}

proof fn lemma_le32_round_trip(n: u32)
    ensures
        u32_of(le32(n)[0], le32(n)[1], le32(n)[2], le32(n)[3]) == n,
{
    let b = le32(n);
    assert(((n & 0xff) as u8 as u32) | ((((n >> 8u32) & 0xff) as u8 as u32) << 8u32) | ((((n
        >> 16u32) & 0xff) as u8 as u32) << 16u32) | ((((n >> 24u32) & 0xff) as u8 as u32) << 24u32)
        == n) by (bit_vector);
}

proof fn lemma_le16_round_trip(v: i16)
    ensures
        sample_of(le16(v)[0], le16(v)[1]) == v,
{
    assert(((((v as u16) & 0xff) as u8 as u16) | ((((v as u16) >> 8u16) as u8 as u16) << 8u16))
        as i16 == v) by (bit_vector);
}

proof fn lemma_samples_round_trip(s: Seq<i16>)
    ensures
        samples_of(samples_bytes(s)) =~= s,
{
    let b = samples_bytes(s);
    assert forall|i: int| 0 <= i < s.len() implies samples_of(b)[i] == s[i] by {
        assert(b[2 * i] == le16(s[i])[0]);
        assert(b[2 * i + 1] == le16(s[i])[1]);
        lemma_le16_round_trip(s[i]);
    }
}

/// Decoding an encoded stream gives back the sample rate and every frame,
/// with its silence flag and its samples, in order.
pub proof fn lemma_stream_round_trip(sample_rate: u32, frames: Seq<(bool, Seq<i16>)>)
    requires
        forall|k: int| 0 <= k < frames.len() ==> (#[trigger] frames[k]).1.len() <= u32::MAX,
    ensures
        parse_stream(stream_bytes(sample_rate, frames)) == Some((sample_rate, frames)),
{
    let b = stream_bytes(sample_rate, frames);
    lemma_records_round_trip(frames);
    lemma_le32_round_trip(sample_rate);
    assert(b.subrange(6, b.len() as int) =~= records_bytes(frames));
}

proof fn lemma_records_round_trip(frames: Seq<(bool, Seq<i16>)>)
    requires
        forall|k: int| 0 <= k < frames.len() ==> (#[trigger] frames[k]).1.len() <= u32::MAX,
    ensures
        parse_records(records_bytes(frames)) == Some(frames),
    decreases frames.len(),
{
    if frames.len() > 0 {
        let rest = frames.drop_first();
        assert forall|k: int| 0 <= k < rest.len() implies (#[trigger] rest[k]).1.len()
            <= u32::MAX by {
            assert(rest[k] == frames[k + 1]);
        }
        lemma_records_round_trip(rest);
        let (silent, samples) = frames[0];
        assert(samples.len() <= u32::MAX);
        let n = samples.len() as u32;
        let b = records_bytes(frames);
        let rec = record_bytes(silent, samples);
        assert(b == rec + records_bytes(rest));
        lemma_le32_round_trip(n);
        assert(u32_of(b[2], b[3], b[4], b[5]) == n);
        assert(b.subrange(6 + 2 * n, b.len() as int) =~= records_bytes(rest));
        assert(b.subrange(6, 6 + 2 * n) =~= samples_bytes(samples));
        lemma_samples_round_trip(samples);
        assert(seq![(b[1] == 1, samples_of(b.subrange(6, 6 + 2 * n)))] + rest =~= frames);
    }
}

/// The stream header.
pub fn encode_header(sample_rate: u32) -> (r: Vec<u8>)
    ensures
        r@ == header_bytes(sample_rate),
{
    let mut r: Vec<u8> = Vec::new();
    r.push(PROTOCOL_VERSION);
    r.push(CONFIG_MARKER);
    push_le32(&mut r, sample_rate);
    assert(r@ =~= header_bytes(sample_rate));
    r
}

fn push_le32(out: &mut Vec<u8>, n: u32)
    ensures
        final(out)@ == old(out)@ + le32(n),
{
    out.push((n & 0xff) as u8);
    out.push(((n >> 8) & 0xff) as u8);
    out.push(((n >> 16) & 0xff) as u8);
    out.push(((n >> 24) & 0xff) as u8);
    assert(final(out)@ =~= old(out)@ + le32(n));
}

/// The record of one frame.
pub fn encode_frame(silent: bool, samples: &[i16]) -> (r: Vec<u8>)
    requires
        samples@.len() <= u32::MAX,
    ensures
        r@ == record_bytes(silent, samples@),
{
    let mut r: Vec<u8> = Vec::new();
    r.push(FRAME_MARKER);
    r.push(if silent { 1u8 } else { 0u8 });
    push_le32(&mut r, samples.len() as u32);
    let n = samples.len();
    let mut i: usize = 0;
    while i < n
        invariant
            n == samples@.len(),
            i <= n,
            r@.len() == 6 + 2 * i,
            r@.subrange(0, 6) == seq![FRAME_MARKER, flag_byte(silent)] + le32(n as u32),
            r@.subrange(6, 6 + 2 * i as int) =~= samples_bytes(samples@.take(i as int)),
        decreases n - i,
    {
        let v = samples[i];
        let u = v as u16;
        let ghost before = r@;
        r.push((u & 0xff) as u8);
        r.push((u >> 8) as u8);
        proof {
            assert(r@.subrange(0, 6) =~= before.subrange(0, 6));
            assert(r@.subrange(6, 6 + 2 * (i + 1)) =~= samples_bytes(samples@.take(i + 1))) by {
                let t = samples@.take(i + 1);
                assert forall|j: int| 0 <= j < 2 * (i + 1) implies r@.subrange(6, 6 + 2 * (i + 1))[j]
                    == samples_bytes(t)[j] by {
                    if j < 2 * i {
                        assert(samples_bytes(samples@.take(i as int))[j] == samples_bytes(t)[j]);
                        assert(before.subrange(6, 6 + 2 * i as int)[j] == before[6 + j]);
                    }
                }
            }
        }
        i = i + 1;
    }
    proof {
        assert(samples@.take(n as int) =~= samples@);
        assert(r@ =~= r@.subrange(0, 6) + r@.subrange(6, 6 + 2 * n as int));
    }
    r
}

/// One frame as read back from a stream.
pub struct FrameRecord {
    pub silent: bool,
    pub samples: Vec<i16>,
}

/// A whole stream as read back.
pub struct DecodedStream {
    pub sample_rate: u32,
    pub frames: Vec<FrameRecord>,
}

pub open spec fn frames_view(v: Seq<FrameRecord>) -> Seq<(bool, Seq<i16>)> {
    Seq::new(v.len(), |i: int| (v[i].silent, v[i].samples@))
}

pub open spec fn decoded_view(r: Option<DecodedStream>) -> Option<(u32, Seq<(bool, Seq<i16>)>)> {
    match r {
        Some(d) => Some((d.sample_rate, frames_view(d.frames@))),
        None => None,
    }
}

spec fn prepend(
    done: Seq<(bool, Seq<i16>)>,
    rest: Option<Seq<(bool, Seq<i16>)>>,
) -> Option<Seq<(bool, Seq<i16>)>> {
    match rest {
        Some(r) => Some(done + r),
        None => None,
    }
}

fn read_u32(b: &[u8], p: usize) -> (r: u32)
    requires
        p + 4 <= b@.len(),
    ensures
        r == u32_of(b@[p as int], b@[p + 1], b@[p + 2], b@[p + 3]),
{
    (b[p] as u32) | ((b[p + 1] as u32) << 8) | ((b[p + 2] as u32) << 16) | ((b[p + 3] as u32)
        << 24)
}

fn read_samples(b: &[u8], start: usize, n: usize) -> (r: Vec<i16>)
    requires
        start + 2 * n <= b@.len(),
    ensures
        r@ == samples_of(b@.subrange(start as int, start + 2 * n)),
{
    let mut r: Vec<i16> = Vec::new();
    let mut i: usize = 0;
    let blen = b.len();
    while i < n
        invariant
            start + 2 * n <= b@.len(),
            b@.len() == blen,
            i <= n,
            r@.len() == i,
            forall|k: int| 0 <= k < i ==> r@[k] == sample_of(b@[start + 2 * k], b@[start + 2 * k + 1]),
        decreases n - i,
    {
        let lo = b[start + 2 * i];
        let hi = b[start + 2 * i + 1];
        let v: i16 = #[verifier::truncate] (((lo as u16) | ((hi as u16) << 8)) as i16);
        r.push(v);
        i = i + 1;
    }
    assert(r@ =~= samples_of(b@.subrange(start as int, start + 2 * n)));
    r
}

/// Reads a stream back: `None` exactly where the bytes are not a header
/// followed by well-formed records up to the end.
pub fn decode_stream(bytes: &[u8]) -> (r: Option<DecodedStream>)
    ensures
        decoded_view(r) == parse_stream(bytes@),
{
    let len = bytes.len();
    if len < 6 || bytes[0] != PROTOCOL_VERSION || bytes[1] != CONFIG_MARKER {
        return None;
    }
    let sample_rate = read_u32(bytes, 2);
    let ghost b = bytes@;
    let mut frames: Vec<FrameRecord> = Vec::new();
    let mut p: usize = 6;
    while p < len
        invariant
            len == b.len(),
            b == bytes@,
            6 <= p <= len,
            parse_records(b.subrange(6, len as int)) == prepend(
                frames_view(frames@),
                parse_records(b.subrange(p as int, len as int)),
            ),
        decreases len - p,
    {
        let ghost sub = b.subrange(p as int, len as int);
        if len - p < 6 || bytes[p] != FRAME_MARKER || bytes[p + 1] > 1 {
            return None;
        }
        let n = read_u32(bytes, p + 2);
        assert(u32_of(sub[2], sub[3], sub[4], sub[5]) == n);
        if ((len - p - 6) as u64) < 2 * (n as u64) {
            return None;
        }
        let count = n as usize;
        let samples = read_samples(bytes, p + 6, count);
        let ghost done = frames_view(frames@);
        let ghost item = (bytes[p + 1] == 1, samples@);
        assert(sub.subrange(6, 6 + 2 * n) =~= b.subrange(p + 6, p + 6 + 2 * count));
        assert(sub.subrange(6 + 2 * n, sub.len() as int) =~= b.subrange(
            p + 6 + 2 * count,
            len as int,
        ));
        frames.push(FrameRecord { silent: bytes[p + 1] == 1, samples });
        assert(frames_view(frames@) =~= done.push(item));
        p = p + 6 + 2 * count;
        assert(prepend(done, parse_records(sub)) == prepend(
            frames_view(frames@),
            parse_records(b.subrange(p as int, len as int)),
        )) by {
            match parse_records(b.subrange(p as int, len as int)) {
                Some(rest) => {
                    assert(done + (seq![item] + rest) =~= done.push(item) + rest);
                },
                None => {},
            }
        }
    }
    assert(b.subrange(p as int, len as int) =~= Seq::<u8>::empty());
    assert(frames_view(frames@) + Seq::empty() =~= frames_view(frames@));
    Some(DecodedStream { sample_rate, frames })
}

} // verus!
