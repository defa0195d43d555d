//! The output helper's own decisions: its command line, which stream
//! configurations it decodes, and the bounded queue of chunks waiting for
//! the decoder.

use std::collections::VecDeque;
use std::collections::hash_map::DefaultHasher;
use std::hash::{Hash, Hasher};
use serde_json::Value;
use vstd::prelude::*;
use vstd::std_specs::hash::DefaultHasherAdditionalSpecFns;

use crate::backend::OutputMode;
use crate::decoder::{DecoderCore, sat_add_u64};
use crate::session::optional_string;
use crate::text::{ascii_lower, ascii_lowercase, chars_are, chars_of, is_keyword};

verus! {

/// How the helper was told to run.
pub struct OutputHelperArgs {
    pub mode: OutputMode,
    pub ws_url: String,
}

/// Why a helper command line was refused.
#[derive(Clone, Copy, Debug, PartialEq, Eq, Structural)]
pub enum ArgErrorKind {
    /// An option came without its value.
    MissingValue,
    /// `--mode` named no output mode.
    InvalidMode,
    /// An option the helper does not know.
    UnsupportedArgument,
    /// No `--mode` was given.
    ModeRequired,
}

/// A refused helper command line: the reason, and the option or value it
/// is about (empty when there is none).
pub struct ArgError {
    pub kind: ArgErrorKind,
    pub subject: String,
}

pub open spec fn word_output_helper() -> Seq<char> {
    seq!['o', 'u', 't', 'p', 'u', 't', '-', 'h', 'e', 'l', 'p', 'e', 'r']
}

pub open spec fn word_mode_option() -> Seq<char> {
    seq!['-', '-', 'm', 'o', 'd', 'e']
}

pub open spec fn word_ws_option() -> Seq<char> {
    seq!['-', '-', 'w', 's']
}

pub open spec fn word_parent_pid_option() -> Seq<char> {
    seq!['-', '-', 'p', 'a', 'r', 'e', 'n', 't', '-', 'p', 'i', 'd']
}

/// The relay address the helper connects to unless told otherwise.
pub open spec fn default_ws_url() -> Seq<char> {
    "ws://127.0.0.1:9876"@
}

/// Reads option/value pairs from `i` on, starting from `mode` and `ws`:
/// `--mode` takes an output mode, `--ws` the relay address, `--parent-pid`
/// the id of the process that started the helper.
pub open spec fn helper_options(args: Seq<Seq<char>>, i: int, mode: Option<OutputMode>, ws: Seq<char>) -> Result<
    (Option<OutputMode>, Seq<char>),
    (ArgErrorKind, Seq<char>),
>
    decreases args.len() - i,
{
    if i < 0 || i >= args.len() {
        Ok((mode, ws))
    } else if i + 1 >= args.len() {
        Err((ArgErrorKind::MissingValue, args[i]))
    } else if args[i] == word_mode_option() {
        match OutputMode::parsed(args[i + 1]) {
            Some(m) => helper_options(args, i + 2, Some(m), ws),
            None => Err((ArgErrorKind::InvalidMode, args[i + 1])),
        }
    } else if args[i] == word_ws_option() {
        helper_options(args, i + 2, mode, args[i + 1])
    } else if args[i] == word_parent_pid_option() {
        helper_options(args, i + 2, mode, ws)
    } else {
        Err((ArgErrorKind::UnsupportedArgument, args[i]))
    }
}

/// The helper's command line (without the program name): `None` unless it
/// starts with `output-helper`; then its options, of which `--mode` is required.
pub open spec fn helper_command(args: Seq<Seq<char>>) -> Result<
    Option<(OutputMode, Seq<char>)>,
    (ArgErrorKind, Seq<char>),
> {
    if args.len() == 0 || args[0] != word_output_helper() {
        Ok(None)
    } else {
        match helper_options(args, 1, None, default_ws_url()) {
            Err(e) => Err(e),
            Ok((None, _)) => Err((ArgErrorKind::ModeRequired, Seq::empty())),
            Ok((Some(m), ws)) => Ok(Some((m, ws))),
        }
    }
}

/// The command line as character sequences.
pub open spec fn arg_views(args: Seq<String>) -> Seq<Seq<char>> {
    args.map_values(|a: String| a@)
}

/// Reads the helper's command line (without the program name).
pub fn parse_helper_args(args: &Vec<String>) -> (r: Result<Option<OutputHelperArgs>, ArgError>)
    ensures
        match helper_command(arg_views(args@)) {
            Ok(None) => r matches Ok(None),
            Ok(Some((mode, ws))) => r matches Ok(Some(a)) && a.mode == mode && a.ws_url@ == ws,
            Err((kind, subject)) => r matches Err(e) && e.kind == kind && e.subject@ == subject,
        },
{
    let ghost views = arg_views(args@);
    let n = args.len();
    let output_helper: [char; 13] = [
        'o', 'u', 't', 'p', 'u', 't', '-', 'h', 'e', 'l', 'p', 'e', 'r',
    ];
    let mode_opt: [char; 6] = ['-', '-', 'm', 'o', 'd', 'e'];
    let ws_opt: [char; 4] = ['-', '-', 'w', 's'];
    let pid_opt: [char; 12] = ['-', '-', 'p', 'a', 'r', 'e', 'n', 't', '-', 'p', 'i', 'd'];
    assert(output_helper@ == word_output_helper());
    assert(mode_opt@ == word_mode_option());
    assert(ws_opt@ == word_ws_option());
    assert(pid_opt@ == word_parent_pid_option());
    if n == 0 {
        return Ok(None);
    }
    let first = chars_of(args[0].as_str());
    assert(views[0] == args@[0]@);
    if !chars_are(&first, &output_helper) {
        return Ok(None);
    }
    let mut mode: Option<OutputMode> = None;
    let mut ws_url: String = "ws://127.0.0.1:9876".to_owned();
    let mut idx: usize = 1;
    while idx < n
        invariant
            n == args@.len(),
            views == arg_views(args@),
            views.len() == n,
            n > 0,
            views[0] == word_output_helper(),
            1 <= idx,
            helper_options(views, 1, None, default_ws_url()) == helper_options(
                views,
                idx as int,
                mode,
                ws_url@,
            ),
            mode_opt@ == word_mode_option(),
            ws_opt@ == word_ws_option(),
            pid_opt@ == word_parent_pid_option(),
        decreases n - idx,
    {
        let key = &args[idx];
        assert(views[idx as int] == key@);
        if idx + 1 >= n {
            return Err(ArgError { kind: ArgErrorKind::MissingValue, subject: key.clone() });
        }
        let value = &args[idx + 1];
        assert(views[idx + 1] == value@);
        let key_chars = chars_of(key.as_str());
        if chars_are(&key_chars, &mode_opt) {
            match OutputMode::parse(value.as_str()) {
                Some(m) => {
                    mode = Some(m);
                },
                None => {
                    return Err(ArgError { kind: ArgErrorKind::InvalidMode, subject: value.clone() });
                },
            }
        } else if chars_are(&key_chars, &ws_opt) {
            ws_url = value.clone();
        } else if !chars_are(&key_chars, &pid_opt) {
            return Err(ArgError { kind: ArgErrorKind::UnsupportedArgument, subject: key.clone() });
        }
        idx = idx + 2;
    }
    match mode {
        Some(m) => Ok(Some(OutputHelperArgs { mode: m, ws_url })),
        None => Err(ArgError { kind: ArgErrorKind::ModeRequired, subject: String::new() }),
    }
}

/// `w` occurs in `s`.
pub open spec fn contains_word(s: Seq<char>, w: Seq<char>) -> bool {
    exists|i: int| 0 <= i && i + w.len() <= s.len() && #[trigger] s.subrange(i, i + w.len()) == w
}

fn find_word(s: &Vec<char>, w: &[char], lower: bool) -> (r: bool)
    requires
        is_keyword(w@),
    ensures
        r == contains_word(if lower { ascii_lowercase(s@) } else { s@ }, w@),
{
    let ghost t = if lower { ascii_lowercase(s@) } else { s@ };
    let n = s.len();
    let m = w.len();
    if m > n {
        proof {
            assert forall|i: int| 0 <= i && i + m <= t.len() implies #[trigger] t.subrange(i, i + m) != w@ by {}
        }
        return false;
    }
    let mut i: usize = 0;
    while i <= n - m
        invariant
            n == s@.len(),
            m == w@.len(),
            m <= n,
            is_keyword(w@),
            t == (if lower { ascii_lowercase(s@) } else { s@ }),
            t.len() == n,
            i <= n - m + 1,
            forall|j: int| 0 <= j < i ==> #[trigger] t.subrange(j, j + m) != w@,
        decreases n - m + 1 - i,
    {
        let mut k: usize = 0;
        let mut same = true;
        while k < m
            invariant
                n == s@.len(),
                m == w@.len(),
                i + m <= n,
                is_keyword(w@),
                t == (if lower { ascii_lowercase(s@) } else { s@ }),
                t.len() == n,
                k <= m,
                same == forall|q: int| 0 <= q < k ==> t[i + q] == w@[q],
            decreases m - k,
        {
            let c = s[i + k];
            let x = w[k];
            let d = if lower {
                c == x || ('A' <= c && c <= 'Z' && (c as u32) + 32 == (x as u32))
            } else {
                c == x
            };
            proof {
                assert('a' <= x <= 'z' || '0' <= x <= '9' || x == '-');
                if lower {
                    assert(t[i + k] == ascii_lower(c));
                } else {
                    assert(t[i + k] == c);
                }
                assert(d == (t[i + k] == x));
            }
            if !d {
                same = false;
            }
            k = k + 1;
        }
        if same {
            proof {
                assert(t.subrange(i as int, i + m) =~= w@);
            }
            return true;
        }
        proof {
            assert(t.subrange(i as int, i + m) != w@) by {
                let q = choose|q: int| 0 <= q < m && t[i + q] != w@[q];
                assert(t.subrange(i as int, i + m)[q] == t[i + q]);
            }
        }
        i = i + 1;
    }
    proof {
        assert forall|j: int| 0 <= j && j + m <= t.len() implies #[trigger] t.subrange(j, j + m) != w@ by {
            assert(j < i);
        }
    }
    false
}

/// Whether a stream's codec string is one the helper decodes: none given,
/// one that names AVC in any ASCII case, or one that names `h264`.
pub open spec fn codec_is_h264(codec: Seq<char>) -> bool {
    codec.len() == 0 || contains_word(ascii_lowercase(codec), seq!['a', 'v', 'c']) || contains_word(
        codec,
        seq!['h', '2', '6', '4'],
    )
}

pub fn codec_supported(codec: &str) -> (r: bool)
    ensures
        r == codec_is_h264(codec@),
{
    let chars = chars_of(codec);
    if chars.len() == 0 {
        return true;
    }
    let avc: [char; 3] = ['a', 'v', 'c'];
    let h264: [char; 4] = ['h', '2', '6', '4'];
    assert(avc@ == seq!['a', 'v', 'c']);
    assert(h264@ == seq!['h', '2', '6', '4']);
    assert(is_keyword(avc@));
    assert(is_keyword(h264@));
    find_word(&chars, &avc, true) || find_word(&chars, &h264, false)
}

/// A decoder configuration sent to the helper for one player.
pub struct ConfigMessage {
    pub player_id: u32,
    /// The codec string, empty when the message names none.
    pub codec: String,
    pub coded_width: Option<u64>,
    pub coded_height: Option<u64>,
    /// The base64 decoder configuration record.
    pub description: Option<String>,
}

/// The fields a configuration message is read for, as `serde_json` reads
/// the text `text` into a `Value`: `None` when the text is not JSON, and
/// otherwise its string `type`, unsigned integer `playerId`, string
/// `codec`, unsigned integer `codedWidth` and `codedHeight`, and string
/// `description`, each `None` where the field is missing or of another kind.
pub uninterp spec fn json_config_fields(text: Seq<char>) -> Option<
    (Option<Seq<char>>, Option<u64>, Option<Seq<char>>, Option<u64>, Option<u64>, Option<Seq<char>>),
>;

pub open spec fn word_config() -> Seq<char> {
    seq!['c', 'o', 'n', 'f', 'i', 'g']
}

/// The configuration a message with these fields carries: only a `config`
/// message naming a player that fits in 32 bits carries one; a missing
/// codec reads as the empty string.
pub open spec fn config_message_of(
    fields: Option<
        (Option<Seq<char>>, Option<u64>, Option<Seq<char>>, Option<u64>, Option<u64>, Option<Seq<char>>),
    >,
) -> Option<(u32, Seq<char>, Option<u64>, Option<u64>, Option<Seq<char>>)> {
    match fields {
        Some((Some(t), Some(p), codec, w, h, d)) => if t == word_config() && p <= u32::MAX {
            Some(
                (
                    p as u32,
                    match codec {
                        Some(c) => c,
                        None => Seq::<char>::empty(),
                    },
                    w,
                    h,
                    d,
                ),
            )
        } else {
            None
        },
        _ => None,
    }
}

/// The configuration fields as plain values.
pub open spec fn config_fields_view(
    fields: Option<(Option<String>, Option<u64>, Option<String>, Option<u64>, Option<u64>, Option<String>)>,
) -> Option<
    (Option<Seq<char>>, Option<u64>, Option<Seq<char>>, Option<u64>, Option<u64>, Option<Seq<char>>),
> {
    match fields {
        Some((t, p, c, w, h, d)) => Some(
            (optional_string(t), p, optional_string(c), w, h, optional_string(d)),
        ),
        None => None,
    }
}

/// Calls `serde_json::from_str::<Value>` on a message's text and picks the
/// fields a configuration carries.  The result is named by
/// `json_config_fields`.
#[verifier::external_body]
fn read_config_fields(text: &str) -> (r: Option<
    (Option<String>, Option<u64>, Option<String>, Option<u64>, Option<u64>, Option<String>),
>)
    ensures
        config_fields_view(r) == json_config_fields(text@),
{
    match serde_json::from_str::<Value>(text) {
        Ok(v) => Some((
            v.get("type").and_then(Value::as_str).map(String::from),
            v.get("playerId").and_then(Value::as_u64),
            v.get("codec").and_then(Value::as_str).map(String::from),
            v.get("codedWidth").and_then(Value::as_u64),
            v.get("codedHeight").and_then(Value::as_u64),
            v.get("description").and_then(Value::as_str).map(String::from),
        )),
        Err(_) => None,
    }
}

/// Reads a text message sent to the helper; a `config` message naming its
/// player gives the configuration, and any other text gives `None`.
pub fn read_config_message(text: &str) -> (r: Option<ConfigMessage>)
    ensures
        match config_message_of(json_config_fields(text@)) {
            None => r is None,
            Some((player_id, codec, coded_width, coded_height, description)) => r matches Some(m)
                && m.player_id == player_id && m.codec@ == codec && m.coded_width == coded_width
                && m.coded_height == coded_height && optional_string(m.description) == description,
        },
{
    let (msg_type, player_id, codec, coded_width, coded_height, description) = match
        read_config_fields(text) {
        Some(fields) => fields,
        None => {
            return None;
        },
    };
    let msg_type = match msg_type {
        Some(t) => t,
        None => {
            return None;
        },
    };
    let config: [char; 6] = ['c', 'o', 'n', 'f', 'i', 'g'];
    assert(config@ == word_config());
    let chars = chars_of(msg_type.as_str());
    if !chars_are(&chars, &config) {
        return None;
    }
    let player_id = match player_id {
        Some(p) => if p <= 0xFFFF_FFFF {
            p as u32
        } else {
            return None;
        },
        None => {
            return None;
        },
    };
    let codec = match codec {
        Some(c) => c,
        None => String::new(),
    };
    Some(ConfigMessage { player_id, codec, coded_width, coded_height, description })
}

/// A coded size side as the configuration fingerprint takes it: kept when
/// it is positive and fits in `usize`.
pub open spec fn positive_size(value: Option<u64>) -> Option<usize> {
    match value {
        Some(v) => if 0 < v <= usize::MAX {
            Some(v as usize)
        } else {
            None
        },
        None => None,
    }
}

pub fn fingerprint_size(value: Option<u64>) -> (r: Option<usize>)
    ensures
        r == positive_size(value),
{
    match value {
        Some(v) => if v > 0 && v as u128 <= usize::MAX as u128 {
            Some(v as usize)
        } else {
            None
        },
        None => None,
    }
}

/// A compressed video chunk waiting for the decoder.
pub struct PendingVideoChunk {
    pub payload: Vec<u8>,
    pub keyframe: bool,
    pub timestamp_us: u64,
}

/// Chunks the decoder has not taken yet.
pub const COMPRESSED_VIDEO_QUEUE_CAPACITY: usize = 4;

/// A player's queue of chunks for the decoder, oldest first, holding at
/// most `COMPRESSED_VIDEO_QUEUE_CAPACITY` after each push.
pub struct ChunkQueue {
    chunks: VecDeque<PendingVideoChunk>,
}

/// A chunk as plain values.
pub open spec fn chunk_view(c: PendingVideoChunk) -> (Seq<u8>, bool, u64) {
    (c.payload@, c.keyframe, c.timestamp_us)
}

impl ChunkQueue {
    /// The chunks, oldest first.
    pub closed spec fn view_chunks(&self) -> Seq<(Seq<u8>, bool, u64)> {
        self.chunks@.map_values(|c: PendingVideoChunk| chunk_view(c))
    }

    pub fn new() -> (r: ChunkQueue)
        ensures
            r.view_chunks() == Seq::<(Seq<u8>, bool, u64)>::empty(),
    {
        let r = ChunkQueue { chunks: VecDeque::new() };
        assert(r.view_chunks() =~= Seq::<(Seq<u8>, bool, u64)>::empty());
        r
    }

    pub fn len(&self) -> (r: usize)
        ensures
            r == self.view_chunks().len(),
    {
        self.chunks.len()
    }

    pub fn is_empty(&self) -> (r: bool)
        ensures
            r == (self.view_chunks().len() == 0),
    {
        self.chunks.len() == 0
    }

    /// Appends a chunk and drops the oldest ones beyond the capacity;
    /// returns how many were dropped.
    pub fn push_bounded(&mut self, chunk: PendingVideoChunk) -> (dropped: usize)
        ensures
            ({
                let all = old(self).view_chunks().push(chunk_view(chunk));
                &&& dropped == (if all.len() > COMPRESSED_VIDEO_QUEUE_CAPACITY {
                    all.len() - COMPRESSED_VIDEO_QUEUE_CAPACITY
                } else {
                    0
                })
                &&& final(self).view_chunks() == all.subrange(dropped as int, all.len() as int)
            }),
    {
        let ghost before = self.view_chunks();
        self.chunks.push_back(chunk);
        assert(self.view_chunks() =~= before.push(chunk_view(chunk)));
        let ghost all = self.view_chunks();
        assert(self.chunks@.len() == all.len());
        if self.chunks.len() <= COMPRESSED_VIDEO_QUEUE_CAPACITY {
            assert(all.subrange(0, all.len() as int) =~= all);
            return 0;
        }
        let dropped = self.chunks.len() - COMPRESSED_VIDEO_QUEUE_CAPACITY;
        let mut k: usize = 0;
        while k < dropped
            invariant
                dropped == all.len() - COMPRESSED_VIDEO_QUEUE_CAPACITY,
                k <= dropped,
                self.view_chunks() == all.subrange(k as int, all.len() as int),
            decreases dropped - k,
        {
            let ghost cur = self.view_chunks();
            assert(self.chunks@.len() == cur.len());
            let _oldest = self.chunks.pop_front();
            assert(self.view_chunks() =~= cur.subrange(1, cur.len() as int));
            assert(cur.subrange(1, cur.len() as int) =~= all.subrange(k + 1, all.len() as int));
            k = k + 1;
        }
        dropped
    }

    /// Takes the oldest chunk.
    pub fn pop_front(&mut self) -> (r: Option<PendingVideoChunk>)
        ensures
            old(self).view_chunks().len() == 0 ==> r is None && final(self).view_chunks()
                == old(self).view_chunks(),
            old(self).view_chunks().len() > 0 ==> (r matches Some(c) && chunk_view(c) == old(
                self,
            ).view_chunks()[0] && final(self).view_chunks() == old(self).view_chunks().subrange(
                1,
                old(self).view_chunks().len() as int,
            )),
    {
        let ghost cur = self.view_chunks();
        let c = self.chunks.pop_front();
        assert(old(self).chunks@.len() > 0 ==> self.view_chunks() =~= cur.subrange(
            1,
            cur.len() as int,
        ));
        c
    }
}

/// Queues a chunk for a player's decoder at `now_us`, counting it as
/// received; chunks pushed out of a full queue count as dropped and make
/// the decoder wait for a keyframe.  Returns whether the caller is to flush
/// its decoder.
pub fn enqueue_video_chunk(
    decoder: &mut DecoderCore,
    queue: &mut ChunkQueue,
    chunk: PendingVideoChunk,
    now_us: u64,
) -> (flush: bool)
    ensures
        ({
            let all = old(queue).view_chunks().push(chunk_view(chunk));
            let dropped = if all.len() > COMPRESSED_VIDEO_QUEUE_CAPACITY {
                all.len() - COMPRESSED_VIDEO_QUEUE_CAPACITY
            } else {
                0
            };
            let received = DecoderCore {
                video_chunks_in: sat_add_u64(old(decoder).video_chunks_in, 1),
                last_chunk_received_us: Some(now_us),
                ..*old(decoder)
            };
            &&& final(queue).view_chunks() == all.subrange(dropped as int, all.len() as int)
            &&& flush == (dropped > 0)
            &&& dropped == 0 ==> *final(decoder) == received
            &&& dropped > 0 ==> *final(decoder) == (DecoderCore {
                video_chunks_dropped: sat_add_u64(received.video_chunks_dropped, dropped as u64),
                catchup_active: false,
                needs_keyframe: true,
                consecutive_empty_decodes: 0,
                ..received
            })
        }),
{
    decoder.observe_chunk_received(now_us);
    let dropped = queue.push_bounded(chunk);
    if dropped > 0 {
        decoder.observe_pipeline_drop(dropped as u64, true)
    } else {
        false
    }
}

/// Which output size a Spout sender starts with: the coded size, or
/// 1280x720 for a side that is unknown or zero.
pub fn default_spout_dimensions(coded_width: Option<usize>, coded_height: Option<usize>) -> (r: (
    usize,
    usize,
))
    ensures
        r.0 == (match coded_width {
            Some(w) => if w > 0 {
                w
            } else {
                1280
            },
            None => 1280,
        }),
        r.1 == (match coded_height {
            Some(h) => if h > 0 {
                h
            } else {
                720
            },
            None => 720,
        }),
{
    let width = match coded_width {
        Some(w) => if w > 0 {
            w
        } else {
            1280
        },
        None => 1280,
    };
    let height = match coded_height {
        Some(h) => if h > 0 {
            h
        } else {
            720
        },
        None => 720,
    };
    (width, height)
}

/// The byte writes that `<Option<usize> as Hash>::hash` makes into a
/// `DefaultHasher`, in vstd's model of the hasher as the sequence of its
/// writes: the variant's discriminant, then the value when there is one,
/// each in the target's native byte layout.  They depend on the value alone.
pub uninterp spec fn option_usize_hash_writes(value: Option<usize>) -> Seq<Seq<u8>>;

/// The byte writes that `<str as Hash>::hash` makes into a `DefaultHasher`
/// (the string's bytes and a terminating marker), as a function of the
/// string's characters alone.
pub uninterp spec fn str_hash_writes(value: Seq<char>) -> Seq<Seq<u8>>;

/// Calls std's `<Option<usize> as Hash>::hash` on the hasher: the writes it
/// makes are appended to the hasher's state and depend on the value alone.
#[verifier::external_body]
fn hash_option_usize(value: Option<usize>, hasher: &mut DefaultHasher)
    ensures
        final(hasher)@ == old(hasher)@ + option_usize_hash_writes(value),
{
    value.hash(hasher)
}

/// Calls std's `<str as Hash>::hash` on the hasher: the writes it makes are
/// appended to the hasher's state and depend on the string alone.
#[verifier::external_body]
fn hash_str(value: &str, hasher: &mut DefaultHasher)
    ensures
        final(hasher)@ == old(hasher)@ + str_hash_writes(value@),
{
    value.hash(hasher)
}

/// The fingerprint of a decoder configuration: std's default hasher, fresh,
/// fed the coded width, the coded height and the base64 record (the empty
/// string when there is none), then finished.
pub open spec fn config_fingerprint(
    coded_width: Option<usize>,
    coded_height: Option<usize>,
    description: Option<Seq<char>>,
) -> u64 {
    let record = match description {
        Some(d) => d,
        None => Seq::<char>::empty(),
    };
    DefaultHasher::spec_finish(
        option_usize_hash_writes(coded_width) + option_usize_hash_writes(coded_height)
            + str_hash_writes(record),
    )
}

/// The view of an optional string, as an optional sequence of characters.
pub open spec fn optional_text(value: Option<&str>) -> Option<Seq<char>> {
    match value {
        Some(d) => Some(d@),
        None => None,
    }
}

/// A fingerprint of a decoder configuration, by std's default hasher over
/// the coded size and the base64 record (empty when there is none).
pub fn build_decoder_config_fingerprint(
    coded_width: Option<usize>,
    coded_height: Option<usize>,
    description_b64: Option<&str>,
) -> (fingerprint: u64)
    ensures
        fingerprint == config_fingerprint(
            coded_width,
            coded_height,
            optional_text(description_b64),
        ),
{
    let mut hasher = DefaultHasher::new();
    hash_option_usize(coded_width, &mut hasher);
    assert(hasher@ =~= option_usize_hash_writes(coded_width));
    hash_option_usize(coded_height, &mut hasher);
    let description = match description_b64 {
        Some(d) => d,
        None => "",
    };
    proof {
        reveal_strlit("");
        assert(description@ =~= match optional_text(description_b64) {
            Some(d) => d,
            None => Seq::<char>::empty(),
        });
    }
    hash_str(description, &mut hasher);
    proof {
        assert(hasher@ =~= option_usize_hash_writes(coded_width) + option_usize_hash_writes(
            coded_height,
        ) + str_hash_writes(
            match optional_text(description_b64) {
                Some(d) => d,
                None => Seq::<char>::empty(),
            },
        ));
    }
    hasher.finish()
}

/// A configuration without a base64 record has the fingerprint of one whose
/// record is the empty string.
pub proof fn law_fingerprint_missing_description_is_empty(
    coded_width: Option<usize>,
    coded_height: Option<usize>,
)
    ensures
        config_fingerprint(coded_width, coded_height, None) == config_fingerprint(
            coded_width,
            coded_height,
            Some(Seq::<char>::empty()),
        ),
{
}

} // verus!
