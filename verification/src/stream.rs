//! What the relay keeps of each player's stream: whether it is connected,
//! its coded size, the output links the helper reports, and chunk counts.

use vstd::prelude::*;
use vstd::string::*;

use std::collections::HashMap;

use crate::backend::{OutputMode, Platform};
use crate::chunk::{MSG_TYPE_AUDIO, MSG_TYPE_VIDEO};
use crate::decoder::sat_add_u64;
use crate::outputs::OutputTargets;
use crate::relay::{connections_with, map_keys, RelayRoutes, Role};

verus! {

/// A player's stream as the relay tracks it.
#[derive(Clone, Copy, Debug, PartialEq, Eq, Structural)]
pub struct StreamState {
    pub connected: bool,
    pub coded_width: Option<u32>,
    pub coded_height: Option<u32>,
    pub ndi_connected: Option<bool>,
    pub ndi_receivers: Option<u64>,
    pub syphon_connected: Option<bool>,
    pub syphon_clients: Option<u64>,
    pub video_chunks: u64,
    pub audio_chunks: u64,
    pub last_timestamp_us: u64,
    pub last_payload_len: usize,
    pub last_video_chunk_us: Option<u64>,
    pub last_helper_stats_us: Option<u64>,
}

/// A size field given as an unsigned integer, kept when it fits in 32 bits.
pub open spec fn fitting_u32(value: Option<u64>) -> Option<u32> {
    match value {
        Some(v) => if v <= u32::MAX {
            Some(v as u32)
        } else {
            None
        },
        None => None,
    }
}

pub fn fit_u32(value: Option<u64>) -> (r: Option<u32>)
    ensures
        r == fitting_u32(value),
{
    match value {
        Some(v) => if v <= 0xffff_ffff {
            Some(v as u32)
        } else {
            None
        },
        None => None,
    }
}

impl StreamState {
    /// A stream the relay has not heard of yet.
    pub fn new() -> (r: StreamState)
        ensures
            r == (StreamState {
                connected: false,
                coded_width: None,
                coded_height: None,
                ndi_connected: None,
                ndi_receivers: None,
                syphon_connected: None,
                syphon_clients: None,
                video_chunks: 0,
                audio_chunks: 0,
                last_timestamp_us: 0,
                last_payload_len: 0,
                last_video_chunk_us: None,
                last_helper_stats_us: None,
            }),
    {
        StreamState {
            connected: false,
            coded_width: None,
            coded_height: None,
            ndi_connected: None,
            ndi_receivers: None,
            syphon_connected: None,
            syphon_clients: None,
            video_chunks: 0,
            audio_chunks: 0,
            last_timestamp_us: 0,
            last_payload_len: 0,
            last_video_chunk_us: None,
            last_helper_stats_us: None,
        }
    }

    /// The player was routed to an extension.
    pub fn mark_connected(&mut self)
        ensures
            *final(self) == (StreamState { connected: true, ..*old(self) }),
    {
        self.connected = true;
    }

    /// The extension carrying the player went away: the stream and its
    /// output links are reported down, with no receivers or clients.
    pub fn close_link(&mut self)
        ensures
            *final(self) == (StreamState {
                connected: false,
                ndi_connected: Some(false),
                ndi_receivers: Some(0),
                syphon_connected: Some(false),
                syphon_clients: Some(0),
                ..*old(self)
            }),
    {
        self.connected = false;
        self.ndi_connected = Some(false);
        self.ndi_receivers = Some(0);
        self.syphon_connected = Some(false);
        self.syphon_clients = Some(0);
    }

    /// A decoder configuration arrived: the stream is connected and its
    /// coded size is the one configured, each side kept when it fits in 32
    /// bits.
    pub fn apply_config_size(&mut self, coded_width: Option<u64>, coded_height: Option<u64>)
        ensures
            *final(self) == (StreamState {
                connected: true,
                coded_width: fitting_u32(coded_width),
                coded_height: fitting_u32(coded_height),
                ..*old(self)
            }),
    {
        self.connected = true;
        self.coded_width = fit_u32(coded_width);
        self.coded_height = fit_u32(coded_height);
    }

    /// A status report arrived: the stream is connected; a resolution in it
    /// sets both sides, and otherwise each side given on its own replaces
    /// the known one when it fits in 32 bits.
    pub fn apply_status_size(
        &mut self,
        resolution: Option<(Option<u64>, Option<u64>)>,
        coded_width: Option<u64>,
        coded_height: Option<u64>,
    )
        ensures
            final(self).connected,
            *final(self) == (StreamState {
                connected: true,
                coded_width: final(self).coded_width,
                coded_height: final(self).coded_height,
                ..*old(self)
            }),
            resolution matches Some((w, h)) ==> final(self).coded_width == fitting_u32(w)
                && final(self).coded_height == fitting_u32(h),
            resolution is None ==> final(self).coded_width == (if fitting_u32(coded_width) is Some {
                fitting_u32(coded_width)
            } else {
                old(self).coded_width
            }) && final(self).coded_height == (if fitting_u32(coded_height) is Some {
                fitting_u32(coded_height)
            } else {
                old(self).coded_height
            }),
    {
        self.connected = true;
        match resolution {
            Some((w, h)) => {
                self.coded_width = fit_u32(w);
                self.coded_height = fit_u32(h);
            },
            None => {
                if let Some(w) = fit_u32(coded_width) {
                    self.coded_width = Some(w);
                }
                if let Some(h) = fit_u32(coded_height) {
                    self.coded_height = Some(h);
                }
            },
        }
    }

    /// A media chunk of `msg_type` was relayed at `now_us`.
    pub fn record_chunk(&mut self, msg_type: u8, timestamp_us: u64, payload_len: usize, now_us: u64)
        ensures
            ({
                let base = StreamState {
                    connected: true,
                    last_timestamp_us: timestamp_us,
                    last_payload_len: payload_len,
                    ..*old(self)
                };
                &&& msg_type == MSG_TYPE_VIDEO ==> *final(self) == (StreamState {
                    video_chunks: sat_add_u64(old(self).video_chunks, 1),
                    last_video_chunk_us: Some(now_us),
                    ..base
                })
                &&& msg_type == MSG_TYPE_AUDIO ==> *final(self) == (StreamState {
                    audio_chunks: sat_add_u64(old(self).audio_chunks, 1),
                    ..base
                })
                &&& msg_type != MSG_TYPE_VIDEO && msg_type != MSG_TYPE_AUDIO ==> *final(self)
                    == base
            }),
    {
        self.connected = true;
        self.last_timestamp_us = timestamp_us;
        self.last_payload_len = payload_len;
        if msg_type == MSG_TYPE_VIDEO {
            self.video_chunks = self.video_chunks.saturating_add(1);
            self.last_video_chunk_us = Some(now_us);
        } else if msg_type == MSG_TYPE_AUDIO {
            self.audio_chunks = self.audio_chunks.saturating_add(1);
        }
    }

    /// The output helper reported its links at `now_us`: a reported flag
    /// replaces the known one, and a reported count replaces the known count
    /// and makes the link up exactly when it is positive.
    pub fn apply_output_report(
        &mut self,
        ndi_connected: Option<bool>,
        ndi_receivers: Option<u64>,
        syphon_connected: Option<bool>,
        syphon_clients: Option<u64>,
        now_us: u64,
    )
        ensures
            *final(self) == (StreamState {
                ndi_connected: match ndi_receivers {
                    Some(n) => Some(n > 0),
                    None => match ndi_connected {
                        Some(c) => Some(c),
                        None => old(self).ndi_connected,
                    },
                },
                ndi_receivers: match ndi_receivers {
                    Some(n) => Some(n),
                    None => old(self).ndi_receivers,
                },
                syphon_connected: match syphon_clients {
                    Some(n) => Some(n > 0),
                    None => match syphon_connected {
                        Some(c) => Some(c),
                        None => old(self).syphon_connected,
                    },
                },
                syphon_clients: match syphon_clients {
                    Some(n) => Some(n),
                    None => old(self).syphon_clients,
                },
                last_helper_stats_us: Some(now_us),
                ..*old(self)
            }),
    {
        if let Some(c) = ndi_connected {
            self.ndi_connected = Some(c);
        }
        if let Some(n) = ndi_receivers {
            self.ndi_receivers = Some(n);
            self.ndi_connected = Some(n > 0);
        }
        if let Some(c) = syphon_connected {
            self.syphon_connected = Some(c);
        }
        if let Some(n) = syphon_clients {
            self.syphon_clients = Some(n);
            self.syphon_connected = Some(n > 0);
        }
        self.last_helper_stats_us = Some(now_us);
    }
}

/// The decoder backend a helper report names replaces the known one, unless
/// the report names none or an empty one.
pub fn update_decode_backend(known: &mut Option<String>, reported: Option<String>)
    ensures
        (reported matches Some(b) && b@.len() > 0) ==> *final(known) == reported,
        !(reported matches Some(b) && b@.len() > 0) ==> *final(known) == *old(known),
{
    if let Some(backend) = reported {
        if backend.as_str().unicode_len() > 0 {
            *known = Some(backend);
        }
    }
}

/// Ids in strictly increasing order.
pub open spec fn strictly_increasing(s: Seq<u32>) -> bool {
    forall|a: int, b: int| 0 <= a < b < s.len() ==> s[a] < s[b]
}

/// The distinct ids `ids`, sorted.
fn sort_ids(ids: &Vec<u32>) -> (r: Vec<u32>)
    requires
        ids@.no_duplicates(),
    ensures
        strictly_increasing(r@),
        r@.len() == ids@.len(),
        forall|x: u32| #[trigger] r@.contains(x) <==> ids@.contains(x),
{
    let n = ids.len();
    let mut out: Vec<u32> = Vec::new();
    let mut i: usize = 0;
    while i < n
        invariant
            n == ids@.len(),
            i <= n,
            ids@.no_duplicates(),
            strictly_increasing(out@),
            out@.len() == i,
            forall|x: u32| #[trigger] out@.contains(x) <==> ids@.take(i as int).contains(x),
        decreases n - i,
    {
        let k = ids[i];
        let ghost prefix = ids@.take(i as int);
        assert(ids@.take(i + 1) =~= prefix.push(k));
        assert(!prefix.contains(k)) by {
            if prefix.contains(k) {
                let a = choose|a: int| 0 <= a < prefix.len() && prefix[a] == k;
                assert(ids@[a] == ids@[i as int]);
            }
        }
        let mut j: usize = 0;
        while j < out.len() && out[j] < k
            invariant
                j <= out@.len(),
                forall|a: int| 0 <= a < j ==> out@[a] < k,
            decreases out@.len() - j,
        {
            j = j + 1;
        }
        let ghost before = out@;
        proof {
            assert(!before.contains(k));
            if j < before.len() {
                assert(before[j as int] != k);
                assert forall|a: int| j <= a < before.len() implies before[a] > k by {
                    if a > j {
                        assert(before[j as int] < before[a]);
                    }
                }
            }
            before.insert_ensures(j as int, k);
        }
        out.insert(j, k);
        proof {
            let now = out@;
            assert forall|a: int, b: int| 0 <= a < b < now.len() implies now[a] < now[b] by {
                if b < j {
                } else if b == j {
                    assert(now[a] == before[a]);
                } else if a < j {
                    assert(now[b] == before[b - 1]);
                } else if a == j {
                    assert(now[b] == before[b - 1]);
                } else {
                    assert(now[a] == before[a - 1] && now[b] == before[b - 1]);
                }
            }
            assert forall|x: u32| #[trigger] now.contains(x) <==> prefix.push(k).contains(x) by {
                if now.contains(x) {
                    let a = choose|a: int| 0 <= a < now.len() && now[a] == x;
                    if a < j {
                        assert(before[a] == x);
                        assert(before.contains(x));
                    } else if a > j {
                        assert(before[a - 1] == x);
                        assert(before.contains(x));
                    }
                    if x != k {
                        let c = choose|c: int| 0 <= c < prefix.len() && prefix[c] == x;
                        assert(prefix.push(k)[c] == x);
                    } else {
                        assert(prefix.push(k)[prefix.len() as int] == x);
                    }
                }
                if prefix.push(k).contains(x) {
                    let c = choose|c: int| 0 <= c < prefix.len() + 1 && prefix.push(k)[c] == x;
                    if c < prefix.len() {
                        assert(prefix[c] == x);
                        assert(before.contains(x));
                        let a = choose|a: int| 0 <= a < before.len() && before[a] == x;
                        if a < j {
                            assert(now[a] == x);
                        } else {
                            assert(now[a + 1] == x);
                        }
                    } else {
                        assert(now[j as int] == x);
                    }
                }
            }
        }
        i = i + 1;
    }
    assert(ids@.take(n as int) =~= ids@);
    out
}

/// An output's switch and availability, as the relay reports them.
#[derive(Clone, Copy, Debug, PartialEq, Eq, Structural)]
pub struct OutputStatus {
    pub mode: OutputMode,
    pub enabled: bool,
    pub available: bool,
}

pub open spec fn output_status(targets: OutputTargets, mode: OutputMode) -> OutputStatus {
    OutputStatus { mode, enabled: targets.enabled(mode), available: targets.available(mode) }
}

/// The outputs the relay reports on `platform`: NDI, Spout and Syphon, with
/// Spout left out on macOS.
pub open spec fn reported_outputs(targets: OutputTargets, platform: Platform) -> Seq<OutputStatus> {
    if platform == Platform::MacOs {
        seq![output_status(targets, OutputMode::Ndi), output_status(targets, OutputMode::Syphon)]
    } else {
        seq![
            output_status(targets, OutputMode::Ndi),
            output_status(targets, OutputMode::Spout),
            output_status(targets, OutputMode::Syphon),
        ]
    }
}

/// What the relay reports of itself to clients.
pub struct BrowserPortStats {
    pub extensions: usize,
    pub clients: usize,
    pub players_registered: usize,
    pub outputs: Vec<OutputStatus>,
    /// Every tracked stream with its player id, by increasing id.
    pub players: Vec<(u32, StreamState)>,
}

/// Gathers the relay's report: the connection counts by role, the number of
/// routed players, the outputs of `platform`, and every stream by id.
pub fn browser_port_stats(
    routes: &RelayRoutes,
    streams: &HashMap<u32, StreamState>,
    targets: &OutputTargets,
    platform: Platform,
) -> (r: BrowserPortStats)
    ensures
        r.extensions == connections_with(routes.connections(), Role::BrowserPortExtension).len(),
        r.clients == connections_with(routes.connections(), Role::Client).len(),
        r.players_registered == routes.routes().dom().len(),
        r.outputs@ == reported_outputs(*targets, platform),
        forall|i: int|
            0 <= i < r.outputs@.len() ==> (#[trigger] r.outputs@[i]).enabled == targets.enabled(
                r.outputs@[i].mode,
            ) && r.outputs@[i].available == targets.available(r.outputs@[i].mode),
        r.players@.len() == streams@.dom().len(),
        forall|a: int, b: int| 0 <= a < b < r.players@.len() ==> r.players@[a].0 < r.players@[b].0,
        forall|t: int|
            0 <= t < r.players@.len() ==> streams@.dom().contains(#[trigger] r.players@[t].0)
                && r.players@[t].1 == streams@[r.players@[t].0],
        forall|id: u32| #[trigger] streams@.dom().contains(id) ==> exists|t: int|
            #![trigger r.players@[t]]
            0 <= t < r.players@.len() && r.players@[t].0 == id,
{
    broadcast use vstd::std_specs::hash::group_hash_axioms;

    let (extensions, clients) = routes.counts();
    let routed = routes.routed_players();
    proof {
        routed@.unique_seq_to_set();
        assert(routed@.to_set() =~= routes.routes().dom());
    }
    let mut outputs: Vec<OutputStatus> = Vec::new();
    outputs.push(
        OutputStatus {
            mode: OutputMode::Ndi,
            enabled: targets.ndi_enabled,
            available: targets.ndi_available,
        },
    );
    if platform != Platform::MacOs {
        outputs.push(
            OutputStatus {
                mode: OutputMode::Spout,
                enabled: targets.spout_enabled,
                available: targets.spout_available,
            },
        );
    }
    outputs.push(
        OutputStatus {
            mode: OutputMode::Syphon,
            enabled: targets.syphon_enabled,
            available: targets.syphon_available,
        },
    );
    assert(outputs@ =~= reported_outputs(*targets, platform));
    let keys = map_keys(streams);
    let ids = sort_ids(&keys);
    proof {
        keys@.unique_seq_to_set();
    }
    let n = ids.len();
    let mut players: Vec<(u32, StreamState)> = Vec::new();
    let mut t: usize = 0;
    while t < n
        invariant
            n == ids@.len(),
            t <= n,
            strictly_increasing(ids@),
            forall|x: u32| #[trigger] ids@.contains(x) <==> keys@.contains(x),
            keys@.to_set() == streams@.dom(),
            players@.len() == t,
            forall|a: int|
                0 <= a < t ==> (#[trigger] players@[a]).0 == ids@[a] && streams@.dom().contains(
                    ids@[a],
                ) && players@[a].1 == streams@[ids@[a]],
        decreases n - t,
    {
        let id = ids[t];
        assert(ids@.contains(id));
        assert(keys@.contains(id) && keys@.to_set().contains(id));
        let state = match streams.get(&id) {
            Some(s) => *s,
            None => StreamState::new(),
        };
        players.push((id, state));
        t = t + 1;
    }
    proof {
        assert forall|id: u32| #[trigger] streams@.dom().contains(id) implies exists|t: int|
            #![trigger players@[t]]
            0 <= t < players@.len() && players@[t].0 == id by {
            assert(keys@.to_set().contains(id));
            assert(keys@.contains(id));
            assert(ids@.contains(id));
            let a = choose|a: int| 0 <= a < ids@.len() && ids@[a] == id;
            assert(players@[a].0 == id);
        }
    }
    BrowserPortStats {
        extensions,
        clients,
        players_registered: routed.len(),
        outputs,
        players,
    }
}


/// Each reported output carries that output's own switch and availability:
/// an output switched off is reported off, whether or not the host has it;
/// the three outputs are each reported once, and Spout exactly when the
/// platform is not macOS.
pub proof fn law_reported_outputs_follow_switches(targets: OutputTargets, platform: Platform)
    ensures
        forall|i: int|
            0 <= i < reported_outputs(targets, platform).len() ==> (#[trigger] reported_outputs(
                targets,
                platform,
            )[i]).enabled == targets.enabled(reported_outputs(targets, platform)[i].mode)
                && reported_outputs(targets, platform)[i].available == targets.available(
                reported_outputs(targets, platform)[i].mode,
            ),
        forall|i: int, j: int|
            0 <= i < j < reported_outputs(targets, platform).len() ==> reported_outputs(
                targets,
                platform,
            )[i].mode != reported_outputs(targets, platform)[j].mode,
        forall|i: int|
            0 <= i < reported_outputs(targets, platform).len() && platform == Platform::MacOs
                ==> (#[trigger] reported_outputs(targets, platform)[i]).mode != OutputMode::Spout,
        reported_outputs(targets, platform).len() == (if platform == Platform::MacOs {
            2int
        } else {
            3int
        }),
{
}

} // verus!
