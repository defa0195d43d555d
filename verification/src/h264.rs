//! Per-stream H.264 state: the NAL length size and parameter sets from the
//! decoder configuration record, and the payload normalization built on them.

use base64::Engine as _;
use vstd::prelude::*;
use vstd::slice::slice_to_vec;

use crate::nal::{
    annexb_contains_idr, annexb_contains_sps_or_pps, avcc_to_annexb, best_effort_avcc_to_annexb,
    concat_units, has_unit_type, is_annexb, parse_avcc_record, prepend_parameter_sets,
    spec_avcc_to_annexb, spec_best_effort_avcc_to_annexb, spec_parse_avcc_record, start_code_at,
    annexb_units, annexb_join, nonempty_units,
};

verus! {

/// The bytes that standard base64 (RFC 4648 alphabet, padded) decodes
/// `encoded` to, or `None` when it is not valid standard base64.
pub uninterp spec fn base64_standard_decoded(encoded: Seq<char>) -> Option<Seq<u8>>;

/// Decodes standard base64 with the `base64` crate's `STANDARD` engine.
/// The decoded bytes are named by `base64_standard_decoded`; a decode error
/// comes back as `None`.
#[verifier::external_body]
fn decode_base64_standard(encoded: &str) -> (r: Option<Vec<u8>>)
    ensures
        match r {
            Some(bytes) => base64_standard_decoded(encoded@) == Some(bytes@),
            None => base64_standard_decoded(encoded@) is None,
        },
{
    base64::engine::general_purpose::STANDARD.decode(encoded).ok()
}

/// Parameters a hardware session is created from.
pub struct VideoToolboxH264Config {
    pub nal_length_size: usize,
    pub parameter_sets: Vec<Vec<u8>>,
}

/// What the stream's decoder configuration said.
pub struct H264Context {
    pub nal_length_size: Option<usize>,
    pub parameter_sets: Vec<Vec<u8>>,
}

impl Default for H264Context {
    fn default() -> (r: Self)
        ensures
            r.nal_length_size is None,
            r.parameter_sets@.len() == 0,
    {
        H264Context { nal_length_size: None, parameter_sets: Vec::new() }
    }
}

/// Copies a list of units.
fn copy_units(units: &Vec<Vec<u8>>) -> (r: Vec<Vec<u8>>)
    ensures
        r.deep_view() == units.deep_view(),
{
    let empty: Vec<Vec<u8>> = Vec::new();
    let r = concat_units(units, &empty);
    assert(empty.deep_view() =~= Seq::<Seq<u8>>::empty());
    assert(units.deep_view() + empty.deep_view() =~= units.deep_view());
    r
}

/// `payload` in Annex B form, by the context's length size when it has one.
pub open spec fn spec_payload_to_annexb(nal_length_size: Option<usize>, p: Seq<u8>) -> Option<Seq<u8>> {
    if p.len() == 0 {
        None
    } else if start_code_at(p, 0) {
        Some(p)
    } else if nal_length_size is Some && spec_avcc_to_annexb(p, nal_length_size->0 as nat) is Some {
        spec_avcc_to_annexb(p, nal_length_size->0 as nat)
    } else {
        spec_best_effort_avcc_to_annexb(p)
    }
}

/// The Annex B form the decoders are fed, before parameter sets are added:
/// a known length size is trusted, with no fallback.
pub open spec fn spec_annexb_for_decode(nal_length_size: Option<usize>, p: Seq<u8>) -> Option<Seq<u8>> {
    if p.len() == 0 {
        None
    } else if start_code_at(p, 0) {
        Some(p)
    } else if nal_length_size is Some {
        spec_avcc_to_annexb(p, nal_length_size->0 as nat)
    } else {
        spec_best_effort_avcc_to_annexb(p)
    }
}

/// Result of `normalize_for_decode`: the Annex B payload, with the stored
/// parameter sets ahead of it when it is a keyframe that carries none.
pub open spec fn spec_normalize_for_decode(
    nal_length_size: Option<usize>,
    sets: Seq<Seq<u8>>,
    p: Seq<u8>,
    keyframe: bool,
) -> Option<Seq<u8>> {
    match spec_annexb_for_decode(nal_length_size, p) {
        None => None,
        Some(annexb) => if keyframe && sets.len() > 0 && !has_unit_type(annexb_units(annexb), 7, 8) {
            Some(annexb_join(nonempty_units(sets)) + annexb)
        } else {
            Some(annexb)
        },
    }
}

/// The length size a hardware session is given: the known one clamped to
/// 1..=4, or 4.
pub open spec fn clamped_nal_length_size(nal_length_size: Option<usize>) -> usize {
    match nal_length_size {
        Some(n) => if n < 1 {
            1
        } else if n > 4 {
            4
        } else {
            n
        },
        None => 4,
    }
}

impl H264Context {
    /// Forgets the configuration.
    pub fn clear(&mut self)
        ensures
            final(self).nal_length_size is None,
            final(self).parameter_sets@.len() == 0,
    {
        self.nal_length_size = None;
        self.parameter_sets.clear();
    }

    /// Takes the length size and parameter sets of a decoder configuration
    /// record; leaves the context as it was when the record does not parse.
    pub fn update_from_avcc_record(&mut self, record: &[u8]) -> (r: bool)
        ensures
            r == (spec_parse_avcc_record(record@) is Some),
            r ==> ({
                let parsed = spec_parse_avcc_record(record@)->0;
                &&& final(self).nal_length_size == Some(parsed.0 as usize)
                &&& final(self).parameter_sets.deep_view() == parsed.1
            }),
            !r ==> final(self).nal_length_size == old(self).nal_length_size
                && final(self).parameter_sets.deep_view() == old(self).parameter_sets.deep_view(),
    {
        match parse_avcc_record(record) {
            None => false,
            Some((nal_length_size, parameter_sets, _sps, _pps)) => {
                self.nal_length_size = Some(nal_length_size);
                self.parameter_sets = parameter_sets;
                true
            },
        }
    }

    /// Takes the configuration record carried as standard base64 text.
    pub fn update_from_base64(&mut self, encoded: &str) -> (r: bool)
        ensures
            r == (base64_standard_decoded(encoded@) matches Some(bytes) && spec_parse_avcc_record(
                bytes,
            ) is Some),
            r ==> ({
                let parsed = spec_parse_avcc_record(base64_standard_decoded(encoded@)->0)->0;
                &&& final(self).nal_length_size == Some(parsed.0 as usize)
                &&& final(self).parameter_sets.deep_view() == parsed.1
            }),
            !r ==> final(self).nal_length_size == old(self).nal_length_size
                && final(self).parameter_sets.deep_view() == old(self).parameter_sets.deep_view(),
    {
        match decode_base64_standard(encoded) {
            None => false,
            Some(bytes) => self.update_from_avcc_record(bytes.as_slice()),
        }
    }

    /// The hardware session configuration, when parameter sets are known;
    /// the length size is clamped to 1..=4 and defaults to 4.
    pub fn video_toolbox_config(&self) -> (r: Option<VideoToolboxH264Config>)
        ensures
            self.parameter_sets@.len() == 0 ==> r is None,
            self.parameter_sets@.len() > 0 ==> (r matches Some(config)
                && config.parameter_sets.deep_view() == self.parameter_sets.deep_view()
                && config.nal_length_size == clamped_nal_length_size(self.nal_length_size)),
    {
        if self.parameter_sets.len() == 0 {
            return None;
        }
        let requested = match self.nal_length_size {
            Some(n) => n,
            None => 4,
        };
        let clamped = if requested < 1 {
            1
        } else if requested > 4 {
            4
        } else {
            requested
        };
        Some(VideoToolboxH264Config {
            nal_length_size: clamped,
            parameter_sets: copy_units(&self.parameter_sets),
        })
    }

    /// The payload in Annex B form for decoding; a keyframe without SPS/PPS
    /// gets the stored parameter sets ahead of it.
    pub fn normalize_for_decode(&self, payload: &[u8], keyframe: bool) -> (r: Option<Vec<u8>>)
        ensures
            r.deep_view() == spec_normalize_for_decode(
                self.nal_length_size,
                self.parameter_sets.deep_view(),
                payload@,
                keyframe,
            ),
    {
        if payload.len() == 0 {
            return None;
        }
        let normalized: Vec<u8> = if is_annexb(payload) {
            slice_to_vec(payload)
        } else if let Some(nal_length_size) = self.nal_length_size {
            match avcc_to_annexb(payload, nal_length_size) {
                Some(v) => v,
                None => {
                    return None;
                },
            }
        } else {
            match best_effort_avcc_to_annexb(payload) {
                Some(v) => v,
                None => {
                    return None;
                },
            }
        };
        assert(normalized.deep_view() =~= normalized@);
        assert(self.parameter_sets.deep_view().len() == self.parameter_sets@.len());
        if keyframe && self.parameter_sets.len() > 0 && !annexb_contains_sps_or_pps(
            normalized.as_slice(),
        ) {
            let with_sets = prepend_parameter_sets(self.parameter_sets.as_slice(), normalized.as_slice());
            assert(with_sets.deep_view() =~= with_sets@);
            return Some(with_sets);
        }
        Some(normalized)
    }

    /// Whether the payload, read as Annex B or AVCC, holds an IDR slice.
    pub fn payload_contains_idr(&self, payload: &[u8]) -> (r: bool)
        ensures
            r == (spec_payload_to_annexb(self.nal_length_size, payload@) matches Some(annexb)
                && has_unit_type(annexb_units(annexb), 5, 5)),
    {
        match self.payload_to_annexb(payload) {
            Some(annexb) => {
                assert(annexb.deep_view() =~= annexb@);
                annexb_contains_idr(annexb.as_slice())
            },
            None => false,
        }
    }

    /// Whether the payload, read as Annex B or AVCC, holds an SPS or PPS.
    pub fn payload_contains_parameter_sets(&self, payload: &[u8]) -> (r: bool)
        ensures
            r == (spec_payload_to_annexb(self.nal_length_size, payload@) matches Some(annexb)
                && has_unit_type(annexb_units(annexb), 7, 8)),
    {
        match self.payload_to_annexb(payload) {
            Some(annexb) => {
                assert(annexb.deep_view() =~= annexb@);
                annexb_contains_sps_or_pps(annexb.as_slice())
            },
            None => false,
        }
    }

    /// The payload in Annex B form: as it is, by the known length size, or
    /// by trying 4-, 2- and 1-byte lengths.
    pub fn payload_to_annexb(&self, payload: &[u8]) -> (r: Option<Vec<u8>>)
        ensures
            r.deep_view() == spec_payload_to_annexb(self.nal_length_size, payload@),
    {
        if payload.len() == 0 {
            return None;
        }
        if is_annexb(payload) {
            let copy = slice_to_vec(payload);
            assert(copy.deep_view() =~= copy@);
            return Some(copy);
        }
        if let Some(nal_length_size) = self.nal_length_size {
            if let Some(annexb) = avcc_to_annexb(payload, nal_length_size) {
                return Some(annexb);
            }
        }
        best_effort_avcc_to_annexb(payload)
    }
}

} // verus!
