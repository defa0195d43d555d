//! The decisions of one player's decode pipeline: when a chunk is dropped
//! while waiting for a keyframe, what the decoder is fed, when a stalled
//! decoder is given up, and the state of the GPU texture fast path.
//!
//! The decoders themselves, the clock and the output devices stay with the
//! caller.  Each step here takes what the caller observed (a chunk, whether a
//! decode produced a frame, how a send went, the time in microseconds of a
//! monotonic clock) and returns what the caller is to do next.

use vstd::prelude::*;
use vstd::slice::slice_to_vec;
use vstd::string::*;

use crate::backend::{
    backend_order, preferred_backend_order, DecodeBackendKind, DecodeBackendPreference,
    FastpathState, Platform, SendPath,
};
use crate::h264::{base64_standard_decoded, spec_normalize_for_decode, spec_payload_to_annexb, H264Context};
use crate::nal::spec_parse_avcc_record;
use crate::nal::{annexb_units, has_unit_type};
use crate::pixel::scaled_coded_size;

verus! {

/// Decode attempts without a frame after which a keyframe is awaited again.
pub const KEYFRAME_RESYNC_EMPTY_THRESHOLD: u32 = 45;

/// Empty Media Foundation decodes, before any frame, after which the
/// software decoder takes over.
pub const MF_STALL_SWITCH_THRESHOLD: u32 = 180;

/// Empty VideoToolbox decodes after which the software decoder takes over.
pub const VT_STALL_SWITCH_THRESHOLD: u32 = 60;

/// Empty Media Foundation decodes on the texture path after which the path
/// is left and the decoder rebuilt.
pub const FASTPATH_DECODE_STALL_THRESHOLD: u32 = 24;

/// A send at least this slow (in microseconds) counts against the texture path.
pub const FASTPATH_HIGH_SEND_US: u64 = 22_000;

/// Slow texture sends in a row that make the texture path fall back.
pub const FASTPATH_HIGH_SEND_STREAK_THRESHOLD: u32 = 8;

/// Good texture sends in a row that end a retry successfully; also the
/// number of frames a retry may take without such a run.
pub const FASTPATH_RECOVERY_STREAK_REQUIRED: u32 = 6;

/// Time (microseconds) after a fallback before the texture path is retried.
pub const FASTPATH_RETRY_COOLDOWN_US: u64 = 3_000_000;

/// Backlog at which the pipeline counts as under severe pressure.
pub const BACKLOG_SEVERE_THRESHOLD: u64 = 120;

/// Stream lateness (microseconds) that turns catch-up on.
pub const CATCHUP_ENTER_LAG_US: i128 = 140_000;

/// Stream lateness (microseconds) at or under which catch-up turns off.
pub const CATCHUP_EXIT_LAG_US: i128 = 90_000;

/// Time (microseconds) without chunks after which a player is idle.
pub const PLAYER_IDLE_TIMEOUT_US: u64 = 5_000_000;

/// Length (microseconds) of the window over which the texture share of sends is taken.
pub const SEND_WINDOW_US: u64 = 1_000_000;

/// Scale steps of the adaptive output size, in percent.
pub const SCALE_FULL: u32 = 100;
pub const SCALE_MEDIUM: u32 = 75;
pub const SCALE_LOW: u32 = 30;

/// How far back (microseconds) a timestamp may jump before the stream clock
/// is re-anchored.
pub const STREAM_REWIND_TOLERANCE_US: u64 = 5_000_000;

/// How early (microseconds) a chunk may seem before the stream clock is re-anchored.
pub const STREAM_EARLY_TOLERANCE_US: i128 = 250_000;

/// How a frame send went, as the output backend reported it.
#[derive(Clone, Copy, Debug, PartialEq, Eq, Structural)]
pub struct SendOutcome {
    pub sent: bool,
    pub path: SendPath,
    pub texture_attempted: bool,
    pub texture_failed: bool,
}

/// The decision state of one player's decoder.
pub struct DecoderCore {
    /// Chunks are dropped until a keyframe arrives.
    pub needs_keyframe: bool,
    pub h264: H264Context,
    pub decode_preference: DecodeBackendPreference,
    pub platform: Platform,
    pub coded_width: Option<usize>,
    pub coded_height: Option<usize>,
    pub video_chunks_in: u64,
    pub video_frames_out: u64,
    pub video_chunks_dropped: u64,
    pub consecutive_empty_decodes: u32,
    pub output_scale_percent: u32,
    /// The clock reading and stream timestamp that lateness is measured from.
    pub stream_time_anchor: Option<(u64, u64)>,
    pub catchup_active: bool,
    pub last_config_fingerprint: Option<u64>,
    pub last_chunk_received_us: Option<u64>,
    /// Whether the texture path is wanted at all.
    pub texture_fastpath_config: bool,
    pub frame_stats_every: u64,
    /// Whether a stalled VideoToolbox decoder is kept rather than replaced.
    pub vt_fallback_disabled: bool,
    pub texture_fastpath_enabled: bool,
    pub fastpath_state: FastpathState,
    pub fastpath_retry_after_us: Option<u64>,
    pub fastpath_high_send_streak: u32,
    pub fastpath_recovery_streak: u32,
    pub fastpath_retry_frames: u32,
    pub fastpath_fallback_count: u64,
    pub fastpath_recover_count: u64,
    pub frame_stats_counter: u64,
    pub send_window_started_us: u64,
    pub send_window_total: u64,
    pub send_window_texture: u64,
    /// The decoder the caller holds, if any.
    pub active_backend: Option<DecodeBackendKind>,
}

pub open spec fn sat_add_u64(a: u64, b: u64) -> u64 {
    if a + b > u64::MAX {
        u64::MAX
    } else {
        (a + b) as u64
    }
}

pub open spec fn sat_inc_u32(a: u32) -> u32 {
    if a == u32::MAX {
        u32::MAX
    } else {
        (a + 1) as u32
    }
}

pub open spec fn sat_sub_u64(a: u64, b: u64) -> u64 {
    if a >= b {
        (a - b) as u64
    } else {
        0
    }
}

/// The stream clock after a chunk stamped `timestamp_us` arrives at
/// `now_us`, and how late (microseconds, negative when early) the chunk is.
/// The clock is anchored at the first chunk, and re-anchored when the
/// timestamps jump back by more than the rewind tolerance or a chunk seems
/// earlier than the early tolerance; a re-anchoring chunk, and one stamped
/// before the anchor, is on time.
pub open spec fn stream_latency(anchor: Option<(u64, u64)>, timestamp_us: u64, now_us: u64) -> (
    Option<(u64, u64)>,
    i128,
) {
    match anchor {
        None => (Some((now_us, timestamp_us)), 0),
        Some((anchor_now, anchor_ts)) => if sat_add_u64(timestamp_us, STREAM_REWIND_TOLERANCE_US)
            < anchor_ts {
            (Some((now_us, timestamp_us)), 0)
        } else if timestamp_us < anchor_ts {
            (anchor, 0)
        } else {
            let late = now_us - (anchor_now + (timestamp_us - anchor_ts));
            if late < -STREAM_EARLY_TOLERANCE_US {
                (Some((now_us, timestamp_us)), 0)
            } else {
                (anchor, late as i128)
            }
        },
    }
}

/// Whether a chunk, read by the stream's configuration, holds an IDR slice.
pub open spec fn carries_idr(nal_length_size: Option<usize>, p: Seq<u8>) -> bool {
    spec_payload_to_annexb(nal_length_size, p) matches Some(annexb) && has_unit_type(
        annexb_units(annexb),
        5,
        5,
    )
}

/// Whether a chunk, read by the stream's configuration, holds an SPS or PPS.
pub open spec fn carries_parameter_sets(nal_length_size: Option<usize>, p: Seq<u8>) -> bool {
    spec_payload_to_annexb(nal_length_size, p) matches Some(annexb) && has_unit_type(
        annexb_units(annexb),
        7,
        8,
    )
}

/// What `begin_decode` decided about a chunk.
pub struct DecodeAdmission {
    /// How late the chunk is, in microseconds (negative when early).
    pub latency_us: i128,
    /// Whether the chunk goes on to the decoder; otherwise it was dropped
    /// while waiting for a keyframe.
    pub admitted: bool,
    /// Whether the chunk is a keyframe by its flag or by its contents.
    pub effective_keyframe: bool,
    /// The chunk in Annex B form for decoders that take it.
    pub normalized: Option<Vec<u8>>,
}

/// What applying a stream configuration asks of the caller.
#[derive(Clone, Copy, Debug)]
pub struct ConfigOutcome {
    /// The size the held decoder is to expect, when there is one.
    pub expected_size: Option<(usize, usize)>,
    /// Whether the configuration is new: the caller drops its decoder and
    /// the player's queued and decoded frames.
    pub reset: bool,
}

/// A size field of a configuration, when it is positive and fits a `usize`.
pub open spec fn positive_size(raw: Option<u64>) -> Option<usize> {
    match raw {
        Some(v) => if v > 0 && v <= usize::MAX {
            Some(v as usize)
        } else {
            None
        },
        None => None,
    }
}

fn positive_size_exec(raw: Option<u64>) -> (r: Option<usize>)
    ensures
        r == positive_size(raw),
{
    match raw {
        Some(v) => if v > 0 && v <= usize::MAX as u64 {
            Some(v as usize)
        } else {
            None
        },
        None => None,
    }
}

/// How a decode attempt ended.
#[derive(Clone, Copy, Debug, PartialEq, Eq, Structural)]
pub enum DecodeFinish {
    /// A frame came out; `first` when it is the stream's first.
    Frame { first: bool },
    /// No frame; the decoder is kept.
    Empty,
    /// No frame, and the decoder is to be dropped.
    DecoderDropped,
}

fn push_unit(units: &mut Vec<Vec<u8>>, unit: Vec<u8>)
    ensures
        final(units).deep_view() == old(units).deep_view().push(unit@),
{
    let ghost before = units.deep_view();
    assert(unit.deep_view() =~= unit@);
    units.push(unit);
    assert(units.deep_view() =~= before.push(unit@));
}

/// Whether two byte strings are equal.
pub fn bytes_equal(a: &[u8], b: &[u8]) -> (r: bool)
    ensures
        r == (a@ == b@),
{
    if a.len() != b.len() {
        return false;
    }
    let n = a.len();
    let mut i: usize = 0;
    while i < n
        invariant
            n == a@.len(),
            n == b@.len(),
            i <= n,
            forall|k: int| 0 <= k < i ==> a@[k] == b@[k],
        decreases n - i,
    {
        if a[i] != b[i] {
            return false;
        }
        i = i + 1;
    }
    assert(a@ =~= b@);
    true
}

impl DecoderCore {
    /// The texture path's bookkeeping is consistent with its state.
    pub open spec fn fastpath_wf(&self) -> bool {
        &&& self.texture_fastpath_enabled == (self.fastpath_state != FastpathState::BgraFallback)
        &&& !self.texture_fastpath_config ==> self.fastpath_state == FastpathState::BgraFallback
        &&& (self.fastpath_state == FastpathState::BgraFallback)
            == (self.fastpath_retry_after_us is Some || !self.texture_fastpath_config)
        &&& !self.texture_fastpath_config ==> self.fastpath_retry_after_us is None
        &&& self.fastpath_state == FastpathState::Texture ==> {
            &&& self.fastpath_high_send_streak < FASTPATH_HIGH_SEND_STREAK_THRESHOLD
            &&& self.fastpath_recovery_streak == 0
            &&& self.fastpath_retry_frames == 0
        }
        &&& self.fastpath_state == FastpathState::Retrying ==> {
            &&& self.fastpath_high_send_streak == 0
            &&& self.fastpath_recovery_streak < FASTPATH_RECOVERY_STREAK_REQUIRED
        }
        &&& self.fastpath_state == FastpathState::BgraFallback ==> {
            &&& self.fastpath_high_send_streak == 0
            &&& self.fastpath_recovery_streak == 0
            &&& self.fastpath_retry_frames == 0
        }
    }

    /// Well-formedness: the texture path is consistent, and the decoder held
    /// is one the platform has.
    pub open spec fn wf(&self) -> bool {
        &&& self.fastpath_wf()
        &&& self.active_backend matches Some(k) ==> k.available_on(self.platform)
    }

    /// Chunks received and neither decoded nor dropped.
    pub open spec fn backlog(&self) -> u64 {
        sat_sub_u64(sat_sub_u64(self.video_chunks_in, self.video_frames_out), self.video_chunks_dropped)
    }

    pub fn new(
        decode_preference: DecodeBackendPreference,
        platform: Platform,
        texture_fastpath: bool,
        frame_stats_every: u64,
        vt_fallback_disabled: bool,
        now_us: u64,
    ) -> (r: DecoderCore)
        ensures
            r.wf(),
            r.needs_keyframe,
            r.h264.nal_length_size is None,
            r.h264.parameter_sets@.len() == 0,
            r.decode_preference == decode_preference,
            r.platform == platform,
            r.coded_width is None,
            r.coded_height is None,
            r.video_chunks_in == 0,
            r.video_frames_out == 0,
            r.video_chunks_dropped == 0,
            r.consecutive_empty_decodes == 0,
            r.output_scale_percent == SCALE_FULL,
            r.stream_time_anchor is None,
            !r.catchup_active,
            r.last_config_fingerprint is None,
            r.last_chunk_received_us is None,
            r.texture_fastpath_config == texture_fastpath,
            r.frame_stats_every == frame_stats_every,
            r.vt_fallback_disabled == vt_fallback_disabled,
            r.texture_fastpath_enabled == texture_fastpath,
            r.fastpath_state == (if texture_fastpath {
                FastpathState::Texture
            } else {
                FastpathState::BgraFallback
            }),
            r.fastpath_retry_after_us is None,
            r.fastpath_high_send_streak == 0,
            r.fastpath_recovery_streak == 0,
            r.fastpath_retry_frames == 0,
            r.fastpath_fallback_count == 0,
            r.fastpath_recover_count == 0,
            r.frame_stats_counter == 0,
            r.send_window_started_us == now_us,
            r.send_window_total == 0,
            r.send_window_texture == 0,
            r.active_backend is None,
    {
        let fastpath_state = if texture_fastpath {
            FastpathState::Texture
        } else {
            FastpathState::BgraFallback
        };
        DecoderCore {
            needs_keyframe: true,
            h264: H264Context::default(),
            decode_preference,
            platform,
            coded_width: None,
            coded_height: None,
            video_chunks_in: 0,
            video_frames_out: 0,
            video_chunks_dropped: 0,
            consecutive_empty_decodes: 0,
            output_scale_percent: SCALE_FULL,
            stream_time_anchor: None,
            catchup_active: false,
            last_config_fingerprint: None,
            last_chunk_received_us: None,
            texture_fastpath_config: texture_fastpath,
            frame_stats_every,
            vt_fallback_disabled,
            texture_fastpath_enabled: texture_fastpath,
            fastpath_state,
            fastpath_retry_after_us: None,
            fastpath_high_send_streak: 0,
            fastpath_recovery_streak: 0,
            fastpath_retry_frames: 0,
            fastpath_fallback_count: 0,
            fastpath_recover_count: 0,
            frame_stats_counter: 0,
            send_window_started_us: now_us,
            send_window_total: 0,
            send_window_texture: 0,
            active_backend: None,
        }
    }

    /// Chunks received and neither decoded nor dropped.
    pub fn pending_backlog(&self) -> (r: u64)
        ensures
            r == self.backlog(),
    {
        self.video_chunks_in.saturating_sub(self.video_frames_out).saturating_sub(
            self.video_chunks_dropped,
        )
    }

    /// Whether no chunk or configuration has come for the idle timeout.
    pub fn is_idle(&self, now_us: u64) -> (r: bool)
        ensures
            r == (self.last_chunk_received_us matches Some(at) && now_us >= at
                + PLAYER_IDLE_TIMEOUT_US),
    {
        match self.last_chunk_received_us {
            Some(at) => now_us.saturating_sub(at) >= PLAYER_IDLE_TIMEOUT_US,
            None => false,
        }
    }

    pub fn observe_config_received(&mut self, now_us: u64)
        ensures
            *final(self) == (DecoderCore { last_chunk_received_us: Some(now_us), ..*old(self) }),
    {
        self.last_chunk_received_us = Some(now_us);
    }

    pub fn observe_chunk_received(&mut self, now_us: u64)
        ensures
            *final(self) == (DecoderCore {
                video_chunks_in: sat_add_u64(old(self).video_chunks_in, 1),
                last_chunk_received_us: Some(now_us),
                ..*old(self)
            }),
    {
        self.video_chunks_in = self.video_chunks_in.saturating_add(1);
        self.last_chunk_received_us = Some(now_us);
    }

    /// Forgets decode progress so that decoding restarts at the next
    /// keyframe; the caller flushes the decoder it holds.
    pub fn request_keyframe_resync(&mut self)
        ensures
            *final(self) == (DecoderCore {
                catchup_active: false,
                needs_keyframe: true,
                consecutive_empty_decodes: 0,
                ..*old(self)
            }),
    {
        self.catchup_active = false;
        self.needs_keyframe = true;
        self.consecutive_empty_decodes = 0;
    }

    /// Counts chunks dropped ahead of the decoder; a queue overflow also
    /// asks for a keyframe resync.  Returns whether the caller is to flush
    /// its decoder.
    pub fn observe_pipeline_drop(&mut self, dropped: u64, queue_overflow: bool) -> (flush: bool)
        ensures
            flush == (dropped > 0 && queue_overflow),
            dropped == 0 ==> *final(self) == *old(self),
            dropped > 0 && !queue_overflow ==> *final(self) == (DecoderCore {
                video_chunks_dropped: sat_add_u64(old(self).video_chunks_dropped, dropped),
                ..*old(self)
            }),
            dropped > 0 && queue_overflow ==> *final(self) == (DecoderCore {
                video_chunks_dropped: sat_add_u64(old(self).video_chunks_dropped, dropped),
                catchup_active: false,
                needs_keyframe: true,
                consecutive_empty_decodes: 0,
                ..*old(self)
            }),
    {
        if dropped == 0 {
            return false;
        }
        self.video_chunks_dropped = self.video_chunks_dropped.saturating_add(dropped);
        if queue_overflow {
            self.request_keyframe_resync();
            return true;
        }
        false
    }

    /// Follows a new configuration record given in base64; on failure the
    /// stored configuration stays as it was.
    pub fn update_avcc_from_base64(&mut self, encoded: &str) -> (r: bool)
        ensures
            r == (base64_standard_decoded(encoded@) matches Some(bytes) && spec_parse_avcc_record(
                bytes,
            ) is Some),
            r ==> ({
                let parsed = spec_parse_avcc_record(base64_standard_decoded(encoded@)->0)->0;
                &&& final(self).h264.nal_length_size == Some(parsed.0 as usize)
                &&& final(self).h264.parameter_sets.deep_view() == parsed.1
            }),
            !r ==> final(self).h264.nal_length_size == old(self).h264.nal_length_size
                && final(self).h264.parameter_sets.deep_view()
                == old(self).h264.parameter_sets.deep_view(),
            *final(self) == (DecoderCore { h264: final(self).h264, ..*old(self) }),
    {
        self.h264.update_from_base64(encoded)
    }

    /// Forgets the stream's configuration record.
    pub fn clear_avcc(&mut self)
        ensures
            final(self).h264.nal_length_size is None,
            final(self).h264.parameter_sets@.len() == 0,
            *final(self) == (DecoderCore { h264: final(self).h264, ..*old(self) }),
    {
        self.h264.clear();
    }

    /// The state after the texture path falls back to BGRA uploads at `now_us`.
    pub open spec fn after_fallback(self, now_us: u64) -> DecoderCore {
        if self.fastpath_state == FastpathState::BgraFallback {
            self
        } else {
            DecoderCore {
                fastpath_state: FastpathState::BgraFallback,
                fastpath_retry_after_us: Some(sat_add_u64(now_us, FASTPATH_RETRY_COOLDOWN_US)),
                fastpath_high_send_streak: 0,
                fastpath_recovery_streak: 0,
                fastpath_retry_frames: 0,
                fastpath_fallback_count: sat_add_u64(self.fastpath_fallback_count, 1),
                texture_fastpath_enabled: false,
                ..self
            }
        }
    }

    /// The state after a retry of the texture path succeeded.
    pub open spec fn after_recovered(self) -> DecoderCore {
        DecoderCore {
            fastpath_state: FastpathState::Texture,
            fastpath_retry_after_us: None,
            fastpath_high_send_streak: 0,
            fastpath_recovery_streak: 0,
            fastpath_retry_frames: 0,
            fastpath_recover_count: sat_add_u64(self.fastpath_recover_count, 1),
            texture_fastpath_enabled: true,
            ..self
        }
    }

    /// The state after checking at `now_us` whether a retry of the texture
    /// path is due.
    pub open spec fn after_retry_check(self, now_us: u64) -> DecoderCore {
        if self.fastpath_state == FastpathState::BgraFallback && self.texture_fastpath_config
            && (self.fastpath_retry_after_us matches Some(at) && now_us >= at) {
            DecoderCore {
                fastpath_state: FastpathState::Retrying,
                fastpath_retry_after_us: None,
                fastpath_recovery_streak: 0,
                fastpath_retry_frames: 0,
                fastpath_high_send_streak: 0,
                texture_fastpath_enabled: true,
                ..self
            }
        } else {
            self
        }
    }

    /// The state after the texture path saw one send.
    pub open spec fn after_fastpath_send(self, send: SendOutcome, elapsed_us: u64, now_us: u64) -> DecoderCore {
        match self.fastpath_state {
            FastpathState::Texture => if send.texture_attempted && send.texture_failed {
                self.after_fallback(now_us)
            } else if send.path == SendPath::Texture && elapsed_us >= FASTPATH_HIGH_SEND_US {
                let s = DecoderCore {
                    fastpath_high_send_streak: sat_inc_u32(self.fastpath_high_send_streak),
                    ..self
                };
                if s.fastpath_high_send_streak >= FASTPATH_HIGH_SEND_STREAK_THRESHOLD {
                    s.after_fallback(now_us)
                } else {
                    s
                }
            } else {
                DecoderCore { fastpath_high_send_streak: 0, ..self }
            },
            FastpathState::BgraFallback => self,
            FastpathState::Retrying => if send.texture_attempted && send.texture_failed {
                self.after_fallback(now_us)
            } else {
                let s = DecoderCore {
                    fastpath_retry_frames: sat_inc_u32(self.fastpath_retry_frames),
                    ..self
                };
                if send.path == SendPath::Texture && send.sent {
                    let t = DecoderCore {
                        fastpath_recovery_streak: sat_inc_u32(s.fastpath_recovery_streak),
                        ..s
                    };
                    if t.fastpath_recovery_streak >= FASTPATH_RECOVERY_STREAK_REQUIRED {
                        t.after_recovered()
                    } else {
                        t
                    }
                } else {
                    let t = DecoderCore { fastpath_recovery_streak: 0, ..s };
                    if t.fastpath_retry_frames >= FASTPATH_RECOVERY_STREAK_REQUIRED {
                        t.after_fallback(now_us)
                    } else {
                        t
                    }
                }
            },
        }
    }

    /// Leaves the texture path for BGRA uploads, to be retried after the
    /// cool-down.  The caller tells its decoder the new texture setting.
    pub fn enter_fastpath_fallback(&mut self, now_us: u64)
        requires
            old(self).wf(),
        ensures
            final(self).wf(),
            *final(self) == old(self).after_fallback(now_us),
    {
        self.fall_back(now_us);
    }

    fn fall_back(&mut self, now_us: u64)
        ensures
            *final(self) == old(self).after_fallback(now_us),
    {
        if self.fastpath_state == FastpathState::BgraFallback {
            return;
        }
        self.fastpath_state = FastpathState::BgraFallback;
        self.fastpath_retry_after_us = Some(now_us.saturating_add(FASTPATH_RETRY_COOLDOWN_US));
        self.fastpath_high_send_streak = 0;
        self.fastpath_recovery_streak = 0;
        self.fastpath_retry_frames = 0;
        self.fastpath_fallback_count = self.fastpath_fallback_count.saturating_add(1);
        self.texture_fastpath_enabled = false;
    }

    fn mark_fastpath_recovered(&mut self)
        ensures
            *final(self) == old(self).after_recovered(),
    {
        self.fastpath_state = FastpathState::Texture;
        self.fastpath_retry_after_us = None;
        self.fastpath_high_send_streak = 0;
        self.fastpath_recovery_streak = 0;
        self.fastpath_retry_frames = 0;
        self.fastpath_recover_count = self.fastpath_recover_count.saturating_add(1);
        self.texture_fastpath_enabled = true;
    }

    /// Retries the texture path once its cool-down has passed.
    pub fn maybe_retry_fastpath(&mut self, now_us: u64)
        requires
            old(self).wf(),
        ensures
            final(self).wf(),
            *final(self) == old(self).after_retry_check(now_us),
    {
        if self.fastpath_state != FastpathState::BgraFallback {
            return;
        }
        if !self.texture_fastpath_config {
            return;
        }
        let retry_after = match self.fastpath_retry_after_us {
            Some(at) => at,
            None => {
                return;
            },
        };
        if now_us < retry_after {
            return;
        }
        self.fastpath_state = FastpathState::Retrying;
        self.fastpath_retry_after_us = None;
        self.fastpath_recovery_streak = 0;
        self.fastpath_retry_frames = 0;
        self.fastpath_high_send_streak = 0;
        self.texture_fastpath_enabled = true;
    }

    /// Moves the texture path on by one send: a failed texture send, a run
    /// of slow ones, or a retry without a run of good ones falls back; a run
    /// of good sends ends a retry.
    pub fn observe_fastpath(&mut self, send: SendOutcome, elapsed_us: u64, now_us: u64)
        requires
            old(self).wf(),
        ensures
            final(self).wf(),
            *final(self) == old(self).after_fastpath_send(send, elapsed_us, now_us),
    {
        match self.fastpath_state {
            FastpathState::Texture => {
                if send.texture_attempted && send.texture_failed {
                    self.fall_back(now_us);
                    return;
                }
                if send.path == SendPath::Texture && elapsed_us >= FASTPATH_HIGH_SEND_US {
                    self.fastpath_high_send_streak = self.fastpath_high_send_streak.saturating_add(
                        1,
                    );
                    if self.fastpath_high_send_streak >= FASTPATH_HIGH_SEND_STREAK_THRESHOLD {
                        self.fall_back(now_us);
                    }
                } else {
                    self.fastpath_high_send_streak = 0;
                }
            },
            FastpathState::BgraFallback => {},
            FastpathState::Retrying => {
                if send.texture_attempted && send.texture_failed {
                    self.fall_back(now_us);
                    return;
                }
                self.fastpath_retry_frames = self.fastpath_retry_frames.saturating_add(1);
                if send.path == SendPath::Texture && send.sent {
                    self.fastpath_recovery_streak = self.fastpath_recovery_streak.saturating_add(1);
                    if self.fastpath_recovery_streak >= FASTPATH_RECOVERY_STREAK_REQUIRED {
                        self.mark_fastpath_recovered();
                    }
                    return;
                }
                self.fastpath_recovery_streak = 0;
                if self.fastpath_retry_frames >= FASTPATH_RECOVERY_STREAK_REQUIRED {
                    self.fall_back(now_us);
                }
            },
        }
    }

    /// The state after one send, before the texture-share window is looked at.
    pub open spec fn after_send_fastpath(self, send: SendOutcome, elapsed_us: u64, now_us: u64) -> DecoderCore {
        if self.texture_fastpath_config {
            self.after_fastpath_send(send, elapsed_us, now_us)
        } else {
            self
        }
    }

    /// Records one send of a frame.  When a window of sends has closed, the
    /// result holds its texture sends and all its sends (for the share of
    /// the texture path) and a new window starts.
    pub fn observe_send(&mut self, send: SendOutcome, elapsed_us: u64, now_us: u64) -> (r: Option<
        (u64, u64),
    >)
        requires
            old(self).wf(),
        ensures
            final(self).wf(),
            ({
                let s = old(self).after_send_fastpath(send, elapsed_us, now_us);
                let total = sat_add_u64(s.send_window_total, 1);
                let texture = if send.path == SendPath::Texture {
                    sat_add_u64(s.send_window_texture, 1)
                } else {
                    s.send_window_texture
                };
                if !send.sent {
                    r is None && *final(self) == s
                } else if now_us >= s.send_window_started_us + SEND_WINDOW_US {
                    r == Some((texture, total)) && *final(self) == (DecoderCore {
                        send_window_started_us: now_us,
                        send_window_total: 0,
                        send_window_texture: 0,
                        ..s
                    })
                } else {
                    r is None && *final(self) == (DecoderCore {
                        send_window_total: total,
                        send_window_texture: texture,
                        ..s
                    })
                }
            }),
    {
        if self.texture_fastpath_config {
            self.observe_fastpath(send, elapsed_us, now_us);
        }
        if !send.sent {
            return None;
        }
        self.send_window_total = self.send_window_total.saturating_add(1);
        if send.path == SendPath::Texture {
            self.send_window_texture = self.send_window_texture.saturating_add(1);
        }
        if now_us.saturating_sub(self.send_window_started_us) >= SEND_WINDOW_US {
            let window = (self.send_window_texture, self.send_window_total);
            self.send_window_started_us = now_us;
            self.send_window_total = 0;
            self.send_window_texture = 0;
            return Some(window);
        }
        None
    }

    /// The state after the decoder is thrown away at `now_us`; decoding
    /// restarts at a keyframe with a new decoder.
    pub open spec fn after_reset(self, now_us: u64) -> DecoderCore {
        DecoderCore {
            active_backend: None,
            needs_keyframe: true,
            consecutive_empty_decodes: 0,
            output_scale_percent: SCALE_FULL,
            frame_stats_counter: 0,
            send_window_started_us: now_us,
            send_window_total: 0,
            send_window_texture: 0,
            fastpath_high_send_streak: 0,
            fastpath_recovery_streak: 0,
            fastpath_retry_frames: 0,
            ..self
        }
    }

    /// Throws the decoder away; the caller drops the one it holds.
    pub fn reset_decoder(&mut self, now_us: u64)
        requires
            old(self).wf(),
        ensures
            final(self).wf(),
            *final(self) == old(self).after_reset(now_us),
    {
        self.active_backend = None;
        self.needs_keyframe = true;
        self.consecutive_empty_decodes = 0;
        self.output_scale_percent = SCALE_FULL;
        self.frame_stats_counter = 0;
        self.send_window_started_us = now_us;
        self.send_window_total = 0;
        self.send_window_texture = 0;
        self.fastpath_high_send_streak = 0;
        self.fastpath_recovery_streak = 0;
        self.fastpath_retry_frames = 0;
    }

    /// Records the coded size from the configuration.  The result is the
    /// size the held decoder is to expect, when both sides are known and a
    /// decoder is held.
    pub fn set_coded_size(&mut self, coded_width: Option<usize>, coded_height: Option<usize>) -> (r:
        Option<(usize, usize)>)
        ensures
            *final(self) == (DecoderCore { coded_width, coded_height, ..*old(self) }),
            r == (if coded_width is Some && coded_height is Some && old(self).active_backend is Some {
                Some((coded_width->0, coded_height->0))
            } else {
                None
            }),
    {
        self.coded_width = coded_width;
        self.coded_height = coded_height;
        match (coded_width, coded_height, self.active_backend) {
            (Some(width), Some(height), Some(_)) => Some((width, height)),
            _ => None,
        }
    }

    /// Counts a decoded frame for sampling its statistics; whether this
    /// frame is to be sampled.  Frames without CPU pixels are not counted.
    pub fn frame_stats_due(&mut self, has_bgra: bool) -> (r: bool)
        ensures
            !has_bgra ==> !r && *final(self) == *old(self),
            has_bgra ==> *final(self) == (DecoderCore {
                frame_stats_counter: sat_add_u64(old(self).frame_stats_counter, 1),
                ..*old(self)
            }) && r == (final(self).frame_stats_counter % (if old(self).frame_stats_every > 0 {
                old(self).frame_stats_every
            } else {
                1
            }) == 0),
    {
        if !has_bgra {
            return false;
        }
        self.frame_stats_counter = self.frame_stats_counter.saturating_add(1);
        let every = if self.frame_stats_every > 0 {
            self.frame_stats_every
        } else {
            1
        };
        self.frame_stats_counter % every == 0
    }

    /// The scale the adaptive sizing would pick, from the current scale,
    /// the backlog and the colour conversion time (microseconds).
    pub open spec fn desired_scale(self, convert_us: u64) -> u32 {
        let severe = self.backlog() >= BACKLOG_SEVERE_THRESHOLD;
        if self.output_scale_percent == SCALE_LOW {
            if !severe && convert_us < 8_000 {
                SCALE_MEDIUM
            } else {
                SCALE_LOW
            }
        } else if self.output_scale_percent == SCALE_MEDIUM {
            if severe || convert_us > 14_000 {
                SCALE_LOW
            } else if convert_us < 6_000 {
                SCALE_FULL
            } else {
                SCALE_MEDIUM
            }
        } else if severe || convert_us > 11_000 {
            SCALE_MEDIUM
        } else {
            SCALE_FULL
        }
    }

    pub fn desired_scale_percent(&self, convert_us: u64) -> (r: u32)
        ensures
            r == self.desired_scale(convert_us),
    {
        let backlog = self.pending_backlog();
        let severe = backlog >= BACKLOG_SEVERE_THRESHOLD;
        if self.output_scale_percent == SCALE_LOW {
            if !severe && convert_us < 8_000 {
                SCALE_MEDIUM
            } else {
                SCALE_LOW
            }
        } else if self.output_scale_percent == SCALE_MEDIUM {
            if severe || convert_us > 14_000 {
                SCALE_LOW
            } else if convert_us < 6_000 {
                SCALE_FULL
            } else {
                SCALE_MEDIUM
            }
        } else if severe || convert_us > 11_000 {
            SCALE_MEDIUM
        } else {
            SCALE_FULL
        }
    }

    /// The state after giving a stalled hardware decoder up for the
    /// software one.
    pub open spec fn after_switch_to_software(self) -> DecoderCore {
        DecoderCore {
            active_backend: None,
            decode_preference: DecodeBackendPreference::OpenH264,
            needs_keyframe: true,
            consecutive_empty_decodes: 0,
            ..self
        }
    }

    /// Whether a stalled `backend` is given up: Media Foundation when it has
    /// never produced a frame within its threshold, VideoToolbox after its
    /// threshold unless that is switched off.
    pub open spec fn gives_up(self, backend: DecodeBackendKind) -> bool {
        ||| backend == DecodeBackendKind::MfD3d11 && self.video_frames_out == 0
            && self.consecutive_empty_decodes >= MF_STALL_SWITCH_THRESHOLD
        ||| backend == DecodeBackendKind::VideoToolbox && self.consecutive_empty_decodes
            >= VT_STALL_SWITCH_THRESHOLD && !self.vt_fallback_disabled
    }

    /// Hands a stalled hardware decoder over to the software decoder; the
    /// caller drops the decoder it holds when none is held any more.
    pub fn maybe_fallback_decoder(&mut self, backend: DecodeBackendKind)
        requires
            old(self).wf(),
        ensures
            final(self).wf(),
            *final(self) == (if old(self).gives_up(backend) {
                old(self).after_switch_to_software()
            } else {
                *old(self)
            }),
    {
        if backend == DecodeBackendKind::MfD3d11 && self.video_frames_out == 0
            && self.consecutive_empty_decodes >= MF_STALL_SWITCH_THRESHOLD {
            self.active_backend = None;
            self.decode_preference = DecodeBackendPreference::OpenH264;
            self.needs_keyframe = true;
            self.consecutive_empty_decodes = 0;
        } else if backend == DecodeBackendKind::VideoToolbox && self.consecutive_empty_decodes
            >= VT_STALL_SWITCH_THRESHOLD && !self.vt_fallback_disabled {
            self.active_backend = None;
            self.decode_preference = DecodeBackendPreference::OpenH264;
            self.needs_keyframe = true;
            self.consecutive_empty_decodes = 0;
        }
    }

    /// The stream clock and lateness for a chunk stamped `timestamp_us` at `now_us`.
    pub fn estimate_stream_latency_us(&mut self, timestamp_us: u64, now_us: u64) -> (r: i128)
        ensures
            (final(self).stream_time_anchor, r) == stream_latency(
                old(self).stream_time_anchor,
                timestamp_us,
                now_us,
            ),
            *final(self) == (DecoderCore {
                stream_time_anchor: final(self).stream_time_anchor,
                ..*old(self)
            }),
    {
        let (anchor_now, anchor_ts) = match self.stream_time_anchor {
            Some(anchor) => anchor,
            None => {
                self.stream_time_anchor = Some((now_us, timestamp_us));
                return 0;
            },
        };
        if timestamp_us.saturating_add(STREAM_REWIND_TOLERANCE_US) < anchor_ts {
            self.stream_time_anchor = Some((now_us, timestamp_us));
            return 0;
        }
        if timestamp_us < anchor_ts {
            return 0;
        }
        let expected: i128 = anchor_now as i128 + (timestamp_us - anchor_ts) as i128;
        let late: i128 = now_us as i128 - expected;
        if late < -STREAM_EARLY_TOLERANCE_US {
            self.stream_time_anchor = Some((now_us, timestamp_us));
            return 0;
        }
        late
    }

    /// The first step of decoding a chunk: retries the texture path when
    /// due, measures lateness and switches catch-up, and drops the chunk
    /// when a keyframe is awaited and this is none.  An admitted chunk ends
    /// the wait and comes back in Annex B form for decoders that take it.
    pub fn begin_decode(&mut self, packet: &[u8], keyframe: bool, timestamp_us: u64, now_us: u64) -> (r:
        DecodeAdmission)
        requires
            old(self).wf(),
        ensures
            final(self).wf(),
            ({
                let s0 = old(self).after_retry_check(now_us);
                let (anchor, late) = stream_latency(s0.stream_time_anchor, timestamp_us, now_us);
                let nls = old(self).h264.nal_length_size;
                let effective = keyframe || carries_idr(nls, packet@) || carries_parameter_sets(
                    nls,
                    packet@,
                );
                let catchup = if s0.catchup_active {
                    late > CATCHUP_EXIT_LAG_US
                } else {
                    !effective && late > CATCHUP_ENTER_LAG_US
                };
                let s1 = DecoderCore { stream_time_anchor: anchor, catchup_active: catchup, ..s0 };
                &&& r.latency_us == late
                &&& r.effective_keyframe == effective
                &&& r.admitted == !(old(self).needs_keyframe && !effective)
                &&& !r.admitted ==> r.normalized is None && *final(self) == (DecoderCore {
                    video_chunks_dropped: sat_add_u64(s1.video_chunks_dropped, 1),
                    ..s1
                })
                &&& r.admitted ==> *final(self) == (DecoderCore { needs_keyframe: false, ..s1 })
                    && r.normalized.deep_view() == (if old(self).active_backend == Some(
                    DecodeBackendKind::VideoToolbox,
                ) {
                    None
                } else {
                    spec_normalize_for_decode(
                        nls,
                        old(self).h264.parameter_sets.deep_view(),
                        packet@,
                        effective,
                    )
                })
            }),
    {
        self.maybe_retry_fastpath(now_us);
        let latency_us = self.estimate_stream_latency_us(timestamp_us, now_us);
        let has_idr = self.h264.payload_contains_idr(packet);
        let has_parameter_sets = self.h264.payload_contains_parameter_sets(packet);
        let effective_keyframe = keyframe || has_idr || has_parameter_sets;
        if self.catchup_active {
            if latency_us <= CATCHUP_EXIT_LAG_US {
                self.catchup_active = false;
            }
        } else if !effective_keyframe && latency_us > CATCHUP_ENTER_LAG_US {
            self.catchup_active = true;
        }
        if self.needs_keyframe && !effective_keyframe {
            self.video_chunks_dropped = self.video_chunks_dropped.saturating_add(1);
            return DecodeAdmission { latency_us, admitted: false, effective_keyframe, normalized: None };
        }
        self.needs_keyframe = false;
        let normalized = match self.active_backend {
            Some(DecodeBackendKind::VideoToolbox) => None,
            _ => self.h264.normalize_for_decode(packet, effective_keyframe),
        };
        DecodeAdmission { latency_us, admitted: true, effective_keyframe, normalized }
    }

    /// The decoders to try, in order, when none is held.
    pub fn decoder_candidates(&self) -> (r: Option<Vec<DecodeBackendKind>>)
        ensures
            self.active_backend is Some ==> r is None,
            self.active_backend is None ==> (r matches Some(order) && order@ == backend_order(
                self.decode_preference,
                self.platform,
            )),
    {
        if self.active_backend.is_some() {
            return None;
        }
        Some(preferred_backend_order(self.decode_preference, self.platform))
    }

    /// Records which candidate decoder the caller could start, if any.  A
    /// decoder already held stays; a kind that is not a candidate counts as
    /// none.  Without a decoder the keyframe wait starts again.  Returns
    /// whether a decoder is held.
    pub fn decoder_started(&mut self, started: Option<DecodeBackendKind>) -> (ready: bool)
        requires
            old(self).wf(),
        ensures
            final(self).wf(),
            old(self).active_backend is Some ==> ready && *final(self) == *old(self),
            old(self).active_backend is None ==> {
                let ok = started matches Some(k) && backend_order(
                    old(self).decode_preference,
                    old(self).platform,
                ).contains(k);
                &&& ready == ok
                &&& ok ==> *final(self) == (DecoderCore { active_backend: started, ..*old(self) })
                &&& !ok ==> *final(self) == (DecoderCore { needs_keyframe: true, ..*old(self) })
            },
    {
        if self.active_backend.is_some() {
            return true;
        }
        let kind = match started {
            Some(k) => k,
            None => {
                self.needs_keyframe = true;
                return false;
            },
        };
        let order = preferred_backend_order(self.decode_preference, self.platform);
        let n = order.len();
        let mut i: usize = 0;
        while i < n
            invariant
                n == order@.len(),
                order@ == backend_order(self.decode_preference, self.platform),
                *self == *old(self),
                old(self).wf(),
                self.active_backend is None,
                started == Some(kind),
                i <= n,
                forall|j: int| 0 <= j < i ==> order@[j] != kind,
            decreases n - i,
        {
            if order[i] == kind {
                proof {
                    crate::backend::law_backend_order_well_formed(
                        self.decode_preference,
                        self.platform,
                    );
                    assert(order@[i as int] == kind);
                }
                self.active_backend = Some(kind);
                return true;
            }
            i = i + 1;
        }
        self.needs_keyframe = true;
        false
    }

    /// The output size the decoder is to produce, when the coded size is
    /// known; the output scale is held at full size.
    pub fn target_size(&mut self) -> (r: Option<(usize, usize)>)
        ensures
            (old(self).coded_width is Some && old(self).coded_height is Some) ==> r == Some(
                (old(self).coded_width->0, old(self).coded_height->0),
            ) && *final(self) == (DecoderCore { output_scale_percent: SCALE_FULL, ..*old(self) }),
            !(old(self).coded_width is Some && old(self).coded_height is Some) ==> r is None
                && *final(self) == *old(self),
    {
        match (self.coded_width, self.coded_height) {
            (Some(width), Some(height)) => {
                self.output_scale_percent = SCALE_FULL;
                Some(scaled_coded_size(width, height, SCALE_FULL))
            },
            _ => None,
        }
    }

    /// The payloads to hand the held decoder, in order, until one gives a
    /// frame: the Annex B form for the software decoder, the chunk as it came
    /// for VideoToolbox, and for Media Foundation the chunk as it came and
    /// then its Annex B form when that differs.  `None` when the software
    /// decoder has nothing it can read; the keyframe wait then starts again.
    pub fn decode_inputs(&mut self, packet: &[u8], normalized: Option<Vec<u8>>) -> (r: Option<
        Vec<Vec<u8>>,
    >)
        requires
            old(self).active_backend is Some,
        ensures
            ({
                let backend = old(self).active_backend->0;
                match backend {
                    DecodeBackendKind::OpenH264 => match normalized {
                        None => r is None && *final(self) == (DecoderCore {
                            needs_keyframe: true,
                            ..*old(self)
                        }),
                        Some(n) => r matches Some(v) && v.deep_view() == seq![n@] && *final(self)
                            == *old(self),
                    },
                    DecodeBackendKind::VideoToolbox => r matches Some(v) && v.deep_view()
                        == seq![packet@] && *final(self) == *old(self),
                    DecodeBackendKind::MfD3d11 => r matches Some(v) && v.deep_view() == (
                    match normalized {
                        Some(n) => if n@ != packet@ {
                            seq![packet@, n@]
                        } else {
                            seq![packet@]
                        },
                        None => seq![packet@],
                    }) && *final(self) == *old(self),
                }
            }),
    {
        let backend = match self.active_backend {
            Some(b) => b,
            None => {
                return None;
            },
        };
        let mut inputs: Vec<Vec<u8>> = Vec::new();
        assert(inputs.deep_view() =~= Seq::<Seq<u8>>::empty());
        match backend {
            DecodeBackendKind::OpenH264 => {
                match normalized {
                    Some(n) => {
                        push_unit(&mut inputs, n);
                    },
                    None => {
                        self.needs_keyframe = true;
                        return None;
                    },
                }
            },
            DecodeBackendKind::VideoToolbox => {
                push_unit(&mut inputs, slice_to_vec(packet));
            },
            DecodeBackendKind::MfD3d11 => {
                push_unit(&mut inputs, slice_to_vec(packet));
                match normalized {
                    Some(n) => {
                        if !bytes_equal(n.as_slice(), packet) {
                            push_unit(&mut inputs, n);
                        }
                    },
                    None => {},
                }
            },
        }
        assert(inputs.deep_view() =~= (match backend {
            DecodeBackendKind::OpenH264 => seq![normalized->0@],
            DecodeBackendKind::VideoToolbox => seq![packet@],
            DecodeBackendKind::MfD3d11 => match normalized {
                Some(n) => if n@ != packet@ {
                    seq![packet@, n@]
                } else {
                    seq![packet@]
                },
                None => seq![packet@],
            },
        }));
        Some(inputs)
    }

    /// The state after a decode attempt at `now_us` that did or did not
    /// produce a frame.
    pub open spec fn after_decode(self, produced: bool, now_us: u64) -> DecoderCore {
        let backend = self.active_backend->0;
        if produced {
            DecoderCore {
                consecutive_empty_decodes: 0,
                needs_keyframe: false,
                video_frames_out: sat_add_u64(self.video_frames_out, 1),
                ..self
            }
        } else {
            let s = DecoderCore {
                consecutive_empty_decodes: sat_inc_u32(self.consecutive_empty_decodes),
                ..self
            };
            if backend == DecodeBackendKind::MfD3d11 && s.texture_fastpath_enabled
                && s.consecutive_empty_decodes >= FASTPATH_DECODE_STALL_THRESHOLD {
                s.after_fallback(now_us).after_reset(now_us)
            } else {
                let t = if !s.needs_keyframe && s.consecutive_empty_decodes
                    >= KEYFRAME_RESYNC_EMPTY_THRESHOLD {
                    DecoderCore { needs_keyframe: true, ..s }
                } else {
                    s
                };
                if t.gives_up(backend) {
                    t.after_switch_to_software()
                } else {
                    t
                }
            }
        }
    }

    /// The last step of decoding a chunk: a frame clears the stall count
    /// and the keyframe wait; an empty attempt counts as a stall, which can
    /// leave the texture path and rebuild the decoder, start waiting for a
    /// keyframe, or hand over to the software decoder.
    pub fn finish_decode(&mut self, produced: bool, now_us: u64) -> (r: DecodeFinish)
        requires
            old(self).wf(),
            old(self).active_backend is Some,
        ensures
            final(self).wf(),
            *final(self) == old(self).after_decode(produced, now_us),
            produced ==> final(self).consecutive_empty_decodes == 0 && !final(self).needs_keyframe
                && final(self).video_frames_out == sat_add_u64(old(self).video_frames_out, 1)
                && final(self).active_backend == old(self).active_backend,
            r == (if produced {
                DecodeFinish::Frame { first: old(self).video_frames_out == 0 }
            } else if final(self).active_backend is None {
                DecodeFinish::DecoderDropped
            } else {
                DecodeFinish::Empty
            }),
    {
        let backend = match self.active_backend {
            Some(b) => b,
            None => {
                return DecodeFinish::Empty;
            },
        };
        if produced {
            let first = self.video_frames_out == 0;
            self.consecutive_empty_decodes = 0;
            self.needs_keyframe = false;
            self.video_frames_out = self.video_frames_out.saturating_add(1);
            return DecodeFinish::Frame { first };
        }
        self.consecutive_empty_decodes = self.consecutive_empty_decodes.saturating_add(1);
        if backend == DecodeBackendKind::MfD3d11 && self.texture_fastpath_enabled
            && self.consecutive_empty_decodes >= FASTPATH_DECODE_STALL_THRESHOLD {
            self.fall_back(now_us);
            self.reset_decoder(now_us);
            return DecodeFinish::DecoderDropped;
        }
        if !self.needs_keyframe && self.consecutive_empty_decodes >= KEYFRAME_RESYNC_EMPTY_THRESHOLD {
            self.needs_keyframe = true;
        }
        self.maybe_fallback_decoder(backend);
        if self.active_backend.is_none() {
            DecodeFinish::DecoderDropped
        } else {
            DecodeFinish::Empty
        }
    }

    /// Applies a stream configuration received at `now_us`: records the
    /// coded size, and when the fingerprint differs from the last one,
    /// throws the decoder away and takes the decoder configuration record
    /// from `description_b64`: a record that decodes and parses replaces
    /// the stored one, any other non-empty text or an empty one clears it,
    /// and none leaves it.
    pub fn apply_config(
        &mut self,
        coded_width: Option<u64>,
        coded_height: Option<u64>,
        description_b64: Option<&str>,
        fingerprint: u64,
        now_us: u64,
    ) -> (r: ConfigOutcome)
        requires
            old(self).wf(),
        ensures
            final(self).wf(),
            ({
                let w = positive_size(coded_width);
                let h = positive_size(coded_height);
                let s1 = DecoderCore {
                    last_chunk_received_us: Some(now_us),
                    coded_width: w,
                    coded_height: h,
                    ..*old(self)
                };
                let reset = old(self).last_config_fingerprint != Some(fingerprint);
                &&& r.reset == reset
                &&& r.expected_size == (if w is Some && h is Some && old(self).active_backend is Some {
                    Some((w->0, h->0))
                } else {
                    None
                })
                &&& !reset ==> *final(self) == s1
                &&& reset ==> *final(self) == (DecoderCore {
                    h264: final(self).h264,
                    last_config_fingerprint: Some(fingerprint),
                    ..s1.after_reset(now_us)
                })
                &&& reset ==> match description_b64 {
                    None => final(self).h264 == old(self).h264,
                    Some(d) => if d@.len() > 0 && (base64_standard_decoded(d@) matches Some(
                        bytes,
                    ) && spec_parse_avcc_record(bytes) is Some) {
                        let parsed = spec_parse_avcc_record(base64_standard_decoded(d@)->0)->0;
                        &&& final(self).h264.nal_length_size == Some(parsed.0 as usize)
                        &&& final(self).h264.parameter_sets.deep_view() == parsed.1
                    } else {
                        &&& final(self).h264.nal_length_size is None
                        &&& final(self).h264.parameter_sets@.len() == 0
                    },
                }
            }),
    {
        self.observe_config_received(now_us);
        let width = positive_size_exec(coded_width);
        let height = positive_size_exec(coded_height);
        let expected_size = self.set_coded_size(width, height);
        let reset = match self.last_config_fingerprint {
            Some(last) => last != fingerprint,
            None => true,
        };
        if !reset {
            return ConfigOutcome { expected_size, reset: false };
        }
        self.reset_decoder(now_us);
        match description_b64 {
            Some(d) => {
                if d.unicode_len() > 0 {
                    if !self.update_avcc_from_base64(d) {
                        self.clear_avcc();
                    }
                } else {
                    self.clear_avcc();
                }
            },
            None => {},
        }
        self.last_config_fingerprint = Some(fingerprint);
        ConfigOutcome { expected_size, reset: true }
    }
}

/// The state after the same send is seen `n` times at `now_us`.
pub open spec fn after_repeated_sends(
    s: DecoderCore,
    send: SendOutcome,
    elapsed_us: u64,
    now_us: u64,
    n: nat,
) -> DecoderCore
    decreases n,
{
    if n == 0 {
        s
    } else {
        after_repeated_sends(s, send, elapsed_us, now_us, (n - 1) as nat).after_fastpath_send(
            send,
            elapsed_us,
            now_us,
        )
    }
}

/// The state after `n` decode attempts in a row that produce no frame.
pub open spec fn after_empty_decodes(s: DecoderCore, now_us: u64, n: nat) -> DecoderCore
    decreases n,
{
    if n == 0 {
        s
    } else {
        after_empty_decodes(s, now_us, (n - 1) as nat).after_decode(false, now_us)
    }
}

/// A fallback holds off retries for the cool-down: a retry check before
/// it ends leaves the fallback alone, and one after it starts a retry with
/// fresh counts and the texture path enabled.
pub proof fn law_fastpath_retry_after_cooldown(s: DecoderCore, at: u64, now_us: u64)
    requires
        s.wf(),
        s.fastpath_state != FastpathState::BgraFallback,
    ensures
        ({
            let f = s.after_fallback(at);
            let r = f.after_retry_check(now_us);
            &&& f.fastpath_state == FastpathState::BgraFallback
            &&& !f.texture_fastpath_enabled
            &&& now_us < sat_add_u64(at, FASTPATH_RETRY_COOLDOWN_US) ==> r == f
            &&& now_us >= sat_add_u64(at, FASTPATH_RETRY_COOLDOWN_US) ==> {
                &&& r.fastpath_state == FastpathState::Retrying
                &&& r.texture_fastpath_enabled
                &&& r.fastpath_recovery_streak == 0
                &&& r.fastpath_retry_frames == 0
                &&& r.fastpath_retry_after_us is None
            }
        }),
{
}

/// A retry that sees a run of good texture sends (sent by the texture
/// path, no texture failure) returns to the texture path and counts one
/// recovery.
pub proof fn law_fastpath_retry_recovers(s: DecoderCore, send: SendOutcome, elapsed_us: u64, now_us: u64)
    requires
        s.wf(),
        s.fastpath_state == FastpathState::Retrying,
        s.fastpath_recovery_streak == 0,
        send.sent,
        send.path == SendPath::Texture,
        !(send.texture_attempted && send.texture_failed),
    ensures
        ({
            let r = after_repeated_sends(s, send, elapsed_us, now_us, FASTPATH_RECOVERY_STREAK_REQUIRED as nat);
            &&& r.fastpath_state == FastpathState::Texture
            &&& r.texture_fastpath_enabled
            &&& r.fastpath_recover_count == sat_add_u64(s.fastpath_recover_count, 1)
            &&& r.fastpath_fallback_count == s.fastpath_fallback_count
        }),
{
    reveal_with_fuel(after_repeated_sends, 7);
    let s1 = after_repeated_sends(s, send, elapsed_us, now_us, 1);
    let s2 = after_repeated_sends(s, send, elapsed_us, now_us, 2);
    let s3 = after_repeated_sends(s, send, elapsed_us, now_us, 3);
    let s4 = after_repeated_sends(s, send, elapsed_us, now_us, 4);
    let s5 = after_repeated_sends(s, send, elapsed_us, now_us, 5);
    assert(s1.fastpath_state == FastpathState::Retrying && s1.fastpath_recovery_streak == 1);
    assert(s2.fastpath_state == FastpathState::Retrying && s2.fastpath_recovery_streak == 2);
    assert(s3.fastpath_state == FastpathState::Retrying && s3.fastpath_recovery_streak == 3);
    assert(s4.fastpath_state == FastpathState::Retrying && s4.fastpath_recovery_streak == 4);
    assert(s5.fastpath_state == FastpathState::Retrying && s5.fastpath_recovery_streak == 5);
}

/// On the texture path, a run of slow texture sends falls back to BGRA
/// uploads and counts one fallback.
pub proof fn law_fastpath_slow_sends_fall_back(s: DecoderCore, send: SendOutcome, elapsed_us: u64, now_us: u64)
    requires
        s.wf(),
        s.fastpath_state == FastpathState::Texture,
        s.fastpath_high_send_streak == 0,
        send.path == SendPath::Texture,
        elapsed_us >= FASTPATH_HIGH_SEND_US,
        !(send.texture_attempted && send.texture_failed),
    ensures
        ({
            let r = after_repeated_sends(s, send, elapsed_us, now_us, FASTPATH_HIGH_SEND_STREAK_THRESHOLD as nat);
            &&& r.fastpath_state == FastpathState::BgraFallback
            &&& !r.texture_fastpath_enabled
            &&& r.fastpath_retry_after_us == Some(sat_add_u64(now_us, FASTPATH_RETRY_COOLDOWN_US))
            &&& r.fastpath_fallback_count == sat_add_u64(s.fastpath_fallback_count, 1)
        }),
{
    reveal_with_fuel(after_repeated_sends, 9);
    let s1 = after_repeated_sends(s, send, elapsed_us, now_us, 1);
    let s2 = after_repeated_sends(s, send, elapsed_us, now_us, 2);
    let s3 = after_repeated_sends(s, send, elapsed_us, now_us, 3);
    let s4 = after_repeated_sends(s, send, elapsed_us, now_us, 4);
    let s5 = after_repeated_sends(s, send, elapsed_us, now_us, 5);
    let s6 = after_repeated_sends(s, send, elapsed_us, now_us, 6);
    let s7 = after_repeated_sends(s, send, elapsed_us, now_us, 7);
    assert(s1.fastpath_state == FastpathState::Texture && s1.fastpath_high_send_streak == 1);
    assert(s2.fastpath_state == FastpathState::Texture && s2.fastpath_high_send_streak == 2);
    assert(s3.fastpath_state == FastpathState::Texture && s3.fastpath_high_send_streak == 3);
    assert(s4.fastpath_state == FastpathState::Texture && s4.fastpath_high_send_streak == 4);
    assert(s5.fastpath_state == FastpathState::Texture && s5.fastpath_high_send_streak == 5);
    assert(s6.fastpath_state == FastpathState::Texture && s6.fastpath_high_send_streak == 6);
    assert(s7.fastpath_state == FastpathState::Texture && s7.fastpath_high_send_streak == 7);
}

/// A software decoder that keeps producing nothing goes back to waiting
/// for a keyframe once the empty attempts reach the resync threshold, and
/// is kept.
pub proof fn law_software_stall_waits_for_keyframe(s: DecoderCore, now_us: u64, n: nat)
    requires
        s.wf(),
        s.active_backend == Some(DecodeBackendKind::OpenH264),
        !s.needs_keyframe,
        s.consecutive_empty_decodes == 0,
        n <= KEYFRAME_RESYNC_EMPTY_THRESHOLD,
    ensures
        ({
            let r = after_empty_decodes(s, now_us, n);
            &&& r.active_backend == Some(DecodeBackendKind::OpenH264)
            &&& r.consecutive_empty_decodes == n
            &&& r.needs_keyframe == (n == KEYFRAME_RESYNC_EMPTY_THRESHOLD)
            &&& r.video_frames_out == s.video_frames_out
        }),
    decreases n,
{
    if n > 0 {
        law_software_stall_waits_for_keyframe(s, now_us, (n - 1) as nat);
    }
}

/// Before its threshold, a stalling VideoToolbox decoder is kept and
/// counts its empty attempts, waiting for a keyframe from the resync
/// threshold on.
pub proof fn law_videotoolbox_stall_counts(s: DecoderCore, now_us: u64, n: nat)
    requires
        s.wf(),
        s.active_backend == Some(DecodeBackendKind::VideoToolbox),
        !s.needs_keyframe,
        s.consecutive_empty_decodes == 0,
        n < VT_STALL_SWITCH_THRESHOLD,
    ensures
        ({
            let r = after_empty_decodes(s, now_us, n);
            &&& r.active_backend == Some(DecodeBackendKind::VideoToolbox)
            &&& r.consecutive_empty_decodes == n
            &&& r.needs_keyframe == (n >= KEYFRAME_RESYNC_EMPTY_THRESHOLD)
            &&& r.decode_preference == s.decode_preference
            &&& r.vt_fallback_disabled == s.vt_fallback_disabled
            &&& r.texture_fastpath_enabled == s.texture_fastpath_enabled
        }),
    decreases n,
{
    if n > 0 {
        law_videotoolbox_stall_counts(s, now_us, (n - 1) as nat);
    }
}

/// A VideoToolbox decoder that produces nothing for its stall threshold is
/// replaced by the software decoder, which starts at the next keyframe;
/// unless that hand-over is switched off, in which case it is kept.
pub proof fn law_videotoolbox_stall_falls_back(s: DecoderCore, now_us: u64)
    requires
        s.wf(),
        s.active_backend == Some(DecodeBackendKind::VideoToolbox),
        !s.needs_keyframe,
        s.consecutive_empty_decodes == 0,
    ensures
        ({
            let r = after_empty_decodes(s, now_us, VT_STALL_SWITCH_THRESHOLD as nat);
            &&& !s.vt_fallback_disabled ==> {
                &&& r.active_backend is None
                &&& r.decode_preference == DecodeBackendPreference::OpenH264
                &&& r.needs_keyframe
                &&& r.consecutive_empty_decodes == 0
            }
            &&& s.vt_fallback_disabled ==> r.active_backend == Some(DecodeBackendKind::VideoToolbox)
                && r.needs_keyframe
        }),
{
    law_videotoolbox_stall_counts(s, now_us, (VT_STALL_SWITCH_THRESHOLD - 1) as nat);
    assert(after_empty_decodes(s, now_us, VT_STALL_SWITCH_THRESHOLD as nat) == after_empty_decodes(
        s,
        now_us,
        (VT_STALL_SWITCH_THRESHOLD - 1) as nat,
    ).after_decode(false, now_us));
}


/// A decode attempt that produces a frame clears the count of empty
/// attempts and the keyframe wait, counts the frame and keeps the decoder;
/// so the thresholds count only empty attempts in a row: after a frame, a
/// software decoder waits for a keyframe again only once a full run of
/// resync-threshold empty attempts follows.
pub proof fn law_frame_restarts_stall_count(s: DecoderCore, now_us: u64, n: nat)
    requires
        s.wf(),
        s.active_backend == Some(DecodeBackendKind::OpenH264),
        n <= KEYFRAME_RESYNC_EMPTY_THRESHOLD,
    ensures
        s.after_decode(true, now_us).consecutive_empty_decodes == 0,
        !s.after_decode(true, now_us).needs_keyframe,
        s.after_decode(true, now_us).video_frames_out == sat_add_u64(s.video_frames_out, 1),
        s.after_decode(true, now_us).active_backend == s.active_backend,
        after_empty_decodes(s.after_decode(true, now_us), now_us, n).consecutive_empty_decodes == n,
        after_empty_decodes(s.after_decode(true, now_us), now_us, n).needs_keyframe == (n
            == KEYFRAME_RESYNC_EMPTY_THRESHOLD),
{
    let t = s.after_decode(true, now_us);
    assert(t.consecutive_empty_decodes == 0);
    assert(!t.needs_keyframe);
    assert(t.active_backend == s.active_backend);
    assert(t.wf());
    law_software_stall_waits_for_keyframe(t, now_us, n);
}

} // verus!
