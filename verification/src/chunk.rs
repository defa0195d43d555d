//! The binary media chunks that the browser extension sends: their header,
//! and the audio and video payload layouts that the outputs take.
//!
//! A chunk starts with a 16-byte prefix: message type, a version-or-flags
//! byte, two bytes that depend on the layout, the player id (little-endian
//! `u32` at 4) and the timestamp in microseconds (little-endian `u64` at 8).
//! In version 1 the flags are at 2 and a little-endian `u32` payload length
//! at 16 is followed by the payload at 20.  Otherwise byte 1 holds the
//! flags, bytes 2..4 a little-endian header size of at least 16, and the
//! payload is everything after the header.

use vstd::prelude::*;
use vstd::slice::{slice_subrange, slice_to_vec};

verus! {

/// Message type of a video chunk.
pub const MSG_TYPE_VIDEO: u8 = 1;

/// Message type of an audio chunk.
pub const MSG_TYPE_AUDIO: u8 = 2;

/// Flag bit of a chunk that starts with a keyframe.
pub const FLAG_KEYFRAME: u8 = 0x01;

/// The little-endian `u16` at `i`.
pub open spec fn le16(s: Seq<u8>, i: int) -> nat {
    (s[i] + s[i + 1] * 256) as nat
}

/// The little-endian `u32` at `i`.
pub open spec fn le32(s: Seq<u8>, i: int) -> nat {
    (s[i] + s[i + 1] * 256 + s[i + 2] * 65536 + s[i + 3] * 16777216) as nat
}

/// The little-endian `u64` at `i`.
pub open spec fn le64(s: Seq<u8>, i: int) -> nat {
    le32(s, i) + le32(s, i + 4) * 4294967296
}

fn read_le16(s: &[u8], i: usize) -> (r: u16)
    requires
        i + 2 <= s@.len(),
    ensures
        r as nat == le16(s@, i as int),
{
    (s[i] as u16) + (s[i + 1] as u16) * 256
}

fn read_le32(s: &[u8], i: usize) -> (r: u32)
    requires
        i + 4 <= s@.len(),
    ensures
        r as nat == le32(s@, i as int),
{
    (s[i] as u32) + (s[i + 1] as u32) * 256 + (s[i + 2] as u32) * 65536 + (s[i + 3] as u32)
        * 16777216
}

fn read_le64(s: &[u8], i: usize) -> (r: u64)
    requires
        i + 8 <= s@.len(),
    ensures
        r as nat == le64(s@, i as int),
{
    let n = s.len();
    let lo = read_le32(s, i);
    let hi = read_le32(s, i + 4);
    (lo as u64) + (hi as u64) * 4294967296
}

/// Where a chunk's payload lies, with the header fields:
/// `(msg_type, flags, player_id, timestamp_us, payload_start, payload_end)`.
pub open spec fn chunk_layout(raw: Seq<u8>) -> Option<(u8, u8, nat, nat, int, int)> {
    if raw.len() < 16 {
        None
    } else if raw[1] == 1 {
        if raw.len() < 20 || raw.len() < 20 + le32(raw, 16) {
            None
        } else {
            Some((raw[0], raw[2], le32(raw, 4), le64(raw, 8), 20, 20 + le32(raw, 16) as int))
        }
    } else if le16(raw, 2) < 16 || raw.len() < le16(raw, 2) {
        None
    } else {
        Some((raw[0], raw[1], le32(raw, 4), le64(raw, 8), le16(raw, 2) as int, raw.len() as int))
    }
}

/// A chunk from the browser extension, with its payload.
pub struct ChunkInfo {
    pub msg_type: u8,
    pub flags: u8,
    pub player_id: u32,
    pub timestamp_us: u64,
    pub payload: Vec<u8>,
}

/// What the relay learns of a chunk it forwards untouched.
#[derive(Clone, Copy, Debug, PartialEq, Eq, Structural)]
pub struct BinaryInfo {
    pub msg_type: u8,
    pub player_id: u32,
    pub timestamp_us: u64,
    pub payload_len: usize,
}

/// Reads the header of `raw` by either layout; `None` when it is cut short
/// or its header size is impossible.
pub fn parse_chunk_header(raw: &[u8]) -> (r: Option<ChunkInfo>)
    ensures
        match chunk_layout(raw@) {
            None => r is None,
            Some((msg_type, flags, player_id, timestamp_us, start, end)) => r matches Some(info)
                && info.msg_type == msg_type && info.flags == flags && info.player_id == player_id
                && info.timestamp_us == timestamp_us && info.payload@ == raw@.subrange(start, end),
        },
{
    match chunk_bounds(raw) {
        None => None,
        Some((msg_type, flags, player_id, timestamp_us, start, end)) => {
            let payload = slice_to_vec(slice_subrange(raw, start, end));
            Some(ChunkInfo { msg_type, flags, player_id, timestamp_us, payload })
        },
    }
}

fn chunk_bounds(raw: &[u8]) -> (r: Option<(u8, u8, u32, u64, usize, usize)>)
    ensures
        match chunk_layout(raw@) {
            None => r is None,
            Some((msg_type, flags, player_id, timestamp_us, start, end)) => r matches Some(
                found,
            ) && found.0 == msg_type && found.1 == flags && found.2 == player_id && found.3
                == timestamp_us && found.4 == start && found.5 == end && 0 <= start <= end
                <= raw@.len(),
        },
{
    if raw.len() < 16 {
        return None;
    }
    let msg_type = raw[0];
    let player_id = read_le32(raw, 4);
    let timestamp_us = read_le64(raw, 8);
    if raw[1] == 1 {
        if raw.len() < 20 {
            return None;
        }
        let payload_len = read_le32(raw, 16) as usize;
        if raw.len() - 20 < payload_len {
            return None;
        }
        return Some((msg_type, raw[2], player_id, timestamp_us, 20, 20 + payload_len));
    }
    let header_size = read_le16(raw, 2) as usize;
    if header_size < 16 || raw.len() < header_size {
        return None;
    }
    Some((msg_type, raw[1], player_id, timestamp_us, header_size, raw.len()))
}

/// Reads the header of a chunk the relay forwards: as `parse_chunk_header`,
/// with the payload's length in place of the payload.
pub fn parse_binary_info(payload: &[u8]) -> (r: Option<BinaryInfo>)
    ensures
        match chunk_layout(payload@) {
            None => r is None,
            Some((msg_type, flags, player_id, timestamp_us, start, end)) => r == Some(
                BinaryInfo {
                    msg_type,
                    player_id: player_id as u32,
                    timestamp_us: timestamp_us as u64,
                    payload_len: (end - start) as usize,
                },
            ),
        },
{
    match chunk_bounds(payload) {
        None => None,
        Some((msg_type, _flags, player_id, timestamp_us, start, end)) => Some(
            BinaryInfo { msg_type, player_id, timestamp_us, payload_len: end - start },
        ),
    }
}

/// An audio payload: a header of sample rate (little-endian `u32`), channel
/// count and frames per channel (little-endian `u16` each), then that many
/// interleaved 4-byte samples.  `None` when a field is zero or the samples
/// are cut short.
pub open spec fn audio_layout(p: Seq<u8>) -> Option<(nat, nat, nat)> {
    if p.len() < 8 {
        None
    } else if le32(p, 0) == 0 || le16(p, 4) == 0 || le16(p, 6) == 0 {
        None
    } else if p.len() < 8 + le16(p, 6) * le16(p, 4) * 4 {
        None
    } else {
        Some((le32(p, 0), le16(p, 4), le16(p, 6)))
    }
}

/// Byte `k` of the planar samples of an interleaved block of `frames`
/// frames of `channels` samples starting at 8: channel by channel, frame by
/// frame, 4 bytes each.
pub open spec fn planar_byte(p: Seq<u8>, channels: int, frames: int, k: int) -> u8 {
    let sample = k / 4;
    let ch = sample / frames;
    let frame = sample % frames;
    p[8 + (frame * channels + ch) * 4 + k % 4]
}

/// One block of audio for the outputs, with its samples channel by channel.
pub struct AudioFrame {
    pub sample_rate: u32,
    pub channels: usize,
    pub frame_count: usize,
    /// The samples, each 4 little-endian bytes of an `f32`, all of channel
    /// 0 first, then all of channel 1, and so on.
    pub planar: Vec<u8>,
}

proof fn lemma_planar_index(channels: int, frames: int, i: int, ch: int, b: int)
    by (nonlinear_arith)
    requires
        channels > 0,
        frames > 0,
        0 <= i < frames,
        0 <= ch < channels,
        0 <= b < 4,
    ensures
        ((ch * frames + i) * 4 + b) / 4 == ch * frames + i,
        ((ch * frames + i) * 4 + b) % 4 == b,
        (ch * frames + i) / frames == ch,
        (ch * frames + i) % frames == i,
        0 <= (ch * frames + i) * 4 + b < channels * frames * 4,
        0 <= (i * channels + ch) * 4 + b < frames * channels * 4,
{
    assert((ch * frames + i) * 4 + b == 4 * (ch * frames + i) + b);
    assert(ch * frames + i < channels * frames) by {
        assert(ch * frames + i < (ch + 1) * frames);
        assert((ch + 1) * frames <= channels * frames);
    }
    assert(i * channels + ch < frames * channels) by {
        assert(i * channels + ch < (i + 1) * channels);
        assert((i + 1) * channels <= frames * channels);
    }
}

/// An audio payload with a non-zero rate, channel count (bytes 4..6) and
/// frame count (bytes 6..8), and all its samples, is read with exactly
/// those values; its planar sample `ch * frames + i` is interleaved sample
/// `i * channels + ch`.
pub proof fn law_audio_header_and_planar_order(p: Seq<u8>)
    requires
        p.len() >= 8,
        le32(p, 0) != 0,
        le16(p, 4) != 0,
        le16(p, 6) != 0,
        p.len() >= 8 + le16(p, 4) * le16(p, 6) * 4,
    ensures
        audio_layout(p) == Some((le32(p, 0), le16(p, 4), le16(p, 6))),
        forall|ch: int, i: int, b: int|
            0 <= ch < le16(p, 4) && 0 <= i < le16(p, 6) && 0 <= b < 4 ==> #[trigger] planar_byte(
                p,
                le16(p, 4) as int,
                le16(p, 6) as int,
                (ch * le16(p, 6) + i) * 4 + b,
            ) == p[8 + (i * le16(p, 4) + ch) * 4 + b],
{
    let c = le16(p, 4) as int;
    let f = le16(p, 6) as int;
    assert(f * c == c * f) by (nonlinear_arith);
    assert forall|ch: int, i: int, b: int| 0 <= ch < c && 0 <= i < f && 0 <= b < 4 implies #[trigger] planar_byte(
        p,
        c,
        f,
        (ch * f + i) * 4 + b,
    ) == p[8 + (i * c + ch) * 4 + b] by {
        lemma_planar_index(c, f, i, ch, b);
    }
}

/// Reads an audio payload and puts its samples channel by channel.
pub fn deinterleave_audio(payload: &[u8]) -> (r: Option<AudioFrame>)
    ensures
        match audio_layout(payload@) {
            None => r is None,
            Some((rate, channels, frames)) => r matches Some(f) && f.sample_rate == rate
                && f.channels == channels && f.frame_count == frames && f.planar@.len() == channels
                * frames * 4 && forall|k: int|
                0 <= k < f.planar@.len() ==> #[trigger] f.planar@[k] == planar_byte(
                    payload@,
                    channels as int,
                    frames as int,
                    k,
                ),
        },
        r matches Some(f) ==> {
            &&& payload@.len() >= 8
            &&& f.sample_rate == le32(payload@, 0)
            &&& f.channels == le16(payload@, 4)
            &&& f.frame_count == le16(payload@, 6)
            &&& forall|ch: int, i: int, b: int|
                0 <= ch < f.channels && 0 <= i < f.frame_count && 0 <= b < 4 ==> #[trigger] f.planar@[(
                ch * f.frame_count + i) * 4 + b] == payload@[8 + (i * f.channels + ch) * 4 + b]
        },
{
    if payload.len() < 8 {
        return None;
    }
    let sample_rate = read_le32(payload, 0);
    let channels = read_le16(payload, 4) as usize;
    let frame_count = read_le16(payload, 6) as usize;
    if sample_rate == 0 || channels == 0 || frame_count == 0 {
        return None;
    }
    let n = payload.len();
    let fc = frame_count as u64;
    let chs = channels as u64;
    assert(fc * chs <= 65535 * 65535) by (nonlinear_arith)
        requires
            fc <= 65535,
            chs <= 65535,
    ;
    let expected_bytes: u64 = fc * chs * 4;
    if ((n - 8) as u64) < expected_bytes {
        return None;
    }
    assert(expected_bytes == frame_count * channels * 4) by (nonlinear_arith)
        requires
            expected_bytes == fc * chs * 4,
            fc == frame_count,
            chs == channels,
    ;
    let mut planar: Vec<u8> = Vec::new();
    let mut ch: usize = 0;
    while ch < channels
        invariant
            0 < channels <= 65535,
            0 < frame_count <= 65535,
            ch <= channels,
            8 + frame_count * channels * 4 <= payload@.len(),
            payload@.len() == n,
            planar@.len() == ch * frame_count * 4,
            forall|k: int|
                0 <= k < planar@.len() ==> #[trigger] planar@[k] == planar_byte(
                    payload@,
                    channels as int,
                    frame_count as int,
                    k,
                ),
        decreases channels - ch,
    {
        let mut i: usize = 0;
        while i < frame_count
            invariant
                0 < channels <= 65535,
                0 < frame_count <= 65535,
                ch < channels,
                i <= frame_count,
                8 + frame_count * channels * 4 <= payload@.len(),
            payload@.len() == n,
                planar@.len() == (ch * frame_count + i) * 4,
                forall|k: int|
                    0 <= k < planar@.len() ==> #[trigger] planar@[k] == planar_byte(
                        payload@,
                        channels as int,
                        frame_count as int,
                        k,
                    ),
            decreases frame_count - i,
        {
            let mut b: usize = 0;
            while b < 4
                invariant
                    0 < channels <= 65535,
                    0 < frame_count <= 65535,
                    ch < channels,
                    i < frame_count,
                    b <= 4,
                    8 + frame_count * channels * 4 <= payload@.len(),
            payload@.len() == n,
                    planar@.len() == (ch * frame_count + i) * 4 + b,
                    forall|k: int|
                        0 <= k < planar@.len() ==> #[trigger] planar@[k] == planar_byte(
                            payload@,
                            channels as int,
                            frame_count as int,
                            k,
                        ),
                decreases 4 - b,
            {
                proof {
                    lemma_planar_index(channels as int, frame_count as int, i as int, ch as int, b as int);
                }
                let src = 8 + (i * channels + ch) * 4 + b;
                let ghost k = planar@.len() as int;
                planar.push(payload[src]);
                assert(planar@[k] == planar_byte(payload@, channels as int, frame_count as int, k));
                b = b + 1;
            }
            assert((ch * frame_count + i) * 4 + 4 == (ch * frame_count + (i + 1)) * 4) by (nonlinear_arith);
            i = i + 1;
        }
        assert(ch * frame_count + frame_count == (ch + 1) * frame_count) by (nonlinear_arith);
        ch = ch + 1;
    }
    assert(planar@.len() == channels * frame_count * 4);
    proof {
        assert forall|c: int, i: int, b: int|
            0 <= c < channels && 0 <= i < frame_count && 0 <= b < 4 implies #[trigger] planar@[(c
            * frame_count + i) * 4 + b] == payload@[8 + (i * channels + c) * 4 + b] by {
            lemma_planar_index(channels as int, frame_count as int, i, c, b);
            let k = (c * frame_count + i) * 4 + b;
            assert(planar@[k] == planar_byte(payload@, channels as int, frame_count as int, k));
        }
    }
    Some(AudioFrame { sample_rate, channels, frame_count, planar })
}

/// `bgra` with the alpha byte of every whole pixel set opaque, as BGRX
/// frames are sent; a trailing partial pixel is kept as it is.
pub open spec fn bgrx_byte(bgra: Seq<u8>, k: int) -> u8 {
    if k % 4 == 3 && k + 1 <= (bgra.len() / 4) * 4 {
        255
    } else {
        bgra[k]
    }
}

pub fn bgra_to_bgrx(bgra: &[u8]) -> (r: Vec<u8>)
    ensures
        r@.len() == bgra@.len(),
        forall|k: int| 0 <= k < bgra@.len() ==> #[trigger] r@[k] == bgrx_byte(bgra@, k),
{
    let n = bgra.len();
    let whole = n - n % 4;
    let mut r: Vec<u8> = Vec::new();
    let mut k: usize = 0;
    while k < n
        invariant
            n == bgra@.len(),
            whole == n - n % 4,
            whole == (n / 4) * 4,
            k <= n,
            r@.len() == k,
            forall|j: int| 0 <= j < k ==> #[trigger] r@[j] == bgrx_byte(bgra@, j),
        decreases n - k,
    {
        if k % 4 == 3 && k < whole {
            r.push(255);
        } else {
            r.push(bgra[k]);
        }
        k = k + 1;
    }
    r
}

/// `x` as four little-endian bytes.
pub open spec fn le32_bytes(x: nat) -> Seq<u8> {
    seq![
        (x % 256) as u8,
        ((x / 256) % 256) as u8,
        ((x / 256 / 256) % 256) as u8,
        ((x / 256 / 256 / 256) % 256) as u8,
    ]
}

/// A version 1 chunk as the extension writes it: type, version 1, flags, a
/// reserved byte, the player id, the timestamp and the payload length, then
/// the payload.
pub open spec fn chunk_v1(msg_type: u8, flags: u8, player_id: u32, timestamp_us: u64, payload: Seq<u8>) -> Seq<u8> {
    seq![msg_type, 1u8, flags, 0u8] + le32_bytes(player_id as nat) + le32_bytes(
        (timestamp_us as nat) % 4294967296,
    ) + le32_bytes((timestamp_us as nat) / 4294967296) + le32_bytes(payload.len()) + payload
}

proof fn lemma_le32_bytes(s: Seq<u8>, i: int, x: nat)
    requires
        x < 4294967296,
        0 <= i,
        i + 4 <= s.len(),
        s.subrange(i, i + 4) == le32_bytes(x),
    ensures
        le32(s, i) == x,
{
    assert(s[i] == le32_bytes(x)[0]);
    assert(s[i + 1] == le32_bytes(x)[1]);
    assert(s[i + 2] == le32_bytes(x)[2]);
    assert(s[i + 3] == le32_bytes(x)[3]);
    let q1 = x / 256;
    let q2 = q1 / 256;
    let q3 = q2 / 256;
    assert(x == x % 256 + 256 * q1);
    assert(q1 == q1 % 256 + 256 * q2);
    assert(q2 == q2 % 256 + 256 * q3);
    assert(q3 < 256);
}

/// Reading a version 1 chunk gives back what was written: its type, flags,
/// player id and timestamp, and exactly its payload.
pub proof fn law_chunk_v1_round_trip(
    msg_type: u8,
    flags: u8,
    player_id: u32,
    timestamp_us: u64,
    payload: Seq<u8>,
)
    requires
        payload.len() < 4294967296,
    ensures
        ({
            let raw = chunk_v1(msg_type, flags, player_id, timestamp_us, payload);
            &&& chunk_layout(raw) == Some(
                (
                    msg_type,
                    flags,
                    player_id as nat,
                    timestamp_us as nat,
                    20int,
                    20 + payload.len() as int,
                ),
            )
            &&& raw.subrange(20, 20 + payload.len() as int) == payload
        }),
{
    let raw = chunk_v1(msg_type, flags, player_id, timestamp_us, payload);
    let ts = timestamp_us as nat;
    let lo = ts % 4294967296;
    let hi = ts / 4294967296;
    assert(raw.len() == 20 + payload.len());
    assert(raw.subrange(4, 8) =~= le32_bytes(player_id as nat));
    assert(raw.subrange(8, 12) =~= le32_bytes(lo));
    assert(raw.subrange(12, 16) =~= le32_bytes(hi));
    assert(raw.subrange(16, 20) =~= le32_bytes(payload.len()));
    assert(raw.subrange(20, 20 + payload.len() as int) =~= payload);
    lemma_le32_bytes(raw, 4, player_id as nat);
    lemma_le32_bytes(raw, 8, lo);
    lemma_le32_bytes(raw, 12, hi);
    lemma_le32_bytes(raw, 16, payload.len());
    assert(ts == lo + hi * 4294967296);
    assert(raw[0] == msg_type);
    assert(raw[1] == 1);
    assert(raw[2] == flags);
}

} // verus!
