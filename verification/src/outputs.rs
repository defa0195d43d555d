//! The relay's outputs: which are available and enabled, what a client's
//! control request does to them, and the watchdog that moves the Spout
//! helper off its texture path when it stalls.

use serde_json::Value;
use vstd::prelude::*;

use crate::backend::{OutputMode, Platform};
use crate::session::{optional_string, RelayError};
use crate::text::{chars_are, chars_of};

verus! {

/// Which outputs this host has, and which are switched on.
#[derive(Clone, Copy, Debug, PartialEq, Eq, Structural)]
pub struct OutputTargets {
    pub ndi_enabled: bool,
    pub spout_enabled: bool,
    pub syphon_enabled: bool,
    pub ndi_available: bool,
    pub spout_available: bool,
    pub syphon_available: bool,
}

impl OutputTargets {
    /// Whether `mode` is available on this host.
    pub open spec fn available(self, mode: OutputMode) -> bool {
        match mode {
            OutputMode::Ndi => self.ndi_available,
            OutputMode::Spout => self.spout_available,
            OutputMode::Syphon => self.syphon_available,
        }
    }

    /// Whether `mode` is switched on.
    pub open spec fn enabled(self, mode: OutputMode) -> bool {
        match mode {
            OutputMode::Ndi => self.ndi_enabled,
            OutputMode::Spout => self.spout_enabled,
            OutputMode::Syphon => self.syphon_enabled,
        }
    }

    /// No output is on that the host does not have.
    pub open spec fn wf(self) -> bool {
        forall|m: OutputMode| #[trigger] self.enabled(m) ==> self.available(m)
    }

    /// `self` with `mode` switched to `on`.
    pub open spec fn with_enabled(self, mode: OutputMode, on: bool) -> OutputTargets {
        match mode {
            OutputMode::Ndi => OutputTargets { ndi_enabled: on, ..self },
            OutputMode::Spout => OutputTargets { spout_enabled: on, ..self },
            OutputMode::Syphon => OutputTargets { syphon_enabled: on, ..self },
        }
    }

    /// Switching on an output the host has, or switching one off, keeps
    /// every output that is on available.
    pub proof fn lemma_with_enabled_wf(self, mode: OutputMode, on: bool)
        requires
            self.wf(),
            on ==> self.available(mode),
        ensures
            self.with_enabled(mode, on).wf(),
    {
        let t = self.with_enabled(mode, on);
        assert forall|m: OutputMode| #[trigger] t.enabled(m) implies t.available(m) by {
            if m != mode {
                assert(self.enabled(m));
            }
        }
    }

    /// The outputs of a fresh relay: NDI when its runtime was found, Spout
    /// on Windows, Syphon on macOS; each available output starts on.
    pub fn new(platform: Platform, ndi_available: bool) -> (r: OutputTargets)
        ensures
            r.wf(),
            r.ndi_available == ndi_available,
            r.spout_available == (platform == Platform::Windows),
            r.syphon_available == (platform == Platform::MacOs),
            forall|m: OutputMode| #[trigger] r.enabled(m) == r.available(m),
    {
        let spout = platform == Platform::Windows;
        let syphon = platform == Platform::MacOs;
        OutputTargets {
            ndi_enabled: ndi_available,
            spout_enabled: spout,
            syphon_enabled: syphon,
            ndi_available,
            spout_available: spout,
            syphon_available: syphon,
        }
    }

    /// Whether the output named `key` is available; `None` for an unknown name.
    pub fn output_available(&self, key: &str) -> (r: Option<bool>)
        ensures
            r == (match OutputMode::parsed(key@) {
                Some(m) => Some(self.available(m)),
                None => None,
            }),
    {
        match OutputMode::parse(key) {
            Some(OutputMode::Ndi) => Some(self.ndi_available),
            Some(OutputMode::Spout) => Some(self.spout_available),
            Some(OutputMode::Syphon) => Some(self.syphon_available),
            None => None,
        }
    }

    /// Whether the output named `key` is on; `None` for an unknown name.
    pub fn output_enabled(&self, key: &str) -> (r: Option<bool>)
        ensures
            r == (match OutputMode::parsed(key@) {
                Some(m) => Some(self.enabled(m)),
                None => None,
            }),
    {
        match OutputMode::parse(key) {
            Some(OutputMode::Ndi) => Some(self.ndi_enabled),
            Some(OutputMode::Spout) => Some(self.spout_enabled),
            Some(OutputMode::Syphon) => Some(self.syphon_enabled),
            None => None,
        }
    }

    /// Switches the output named `key`; refused (returning `false`, with
    /// nothing changed) for an unknown name or an output the host lacks.
    pub fn set_output(&mut self, key: &str, enabled: bool) -> (r: bool)
        requires
            old(self).wf(),
        ensures
            final(self).wf(),
            r == (OutputMode::parsed(key@) matches Some(m) && old(self).available(m)),
            r ==> *final(self) == old(self).with_enabled(OutputMode::parsed(key@)->0, enabled),
            !r ==> *final(self) == *old(self),
    {
        match OutputMode::parse(key) {
            Some(OutputMode::Ndi) => {
                if !self.ndi_available {
                    return false;
                }
                proof {
                    old(self).lemma_with_enabled_wf(OutputMode::Ndi, enabled);
                }
                self.ndi_enabled = enabled;
                true
            },
            Some(OutputMode::Spout) => {
                if !self.spout_available {
                    return false;
                }
                proof {
                    old(self).lemma_with_enabled_wf(OutputMode::Spout, enabled);
                }
                self.spout_enabled = enabled;
                true
            },
            Some(OutputMode::Syphon) => {
                if !self.syphon_available {
                    return false;
                }
                proof {
                    old(self).lemma_with_enabled_wf(OutputMode::Syphon, enabled);
                }
                self.syphon_enabled = enabled;
                true
            },
            None => false,
        }
    }
}

/// What a client's control request leads to.
#[derive(Clone, Copy, Debug, PartialEq, Eq, Structural)]
pub enum ControlAction {
    /// Send the relay's statistics to the client.
    SendStats,
    /// Answer the client with an error.
    Reply(RelayError),
    /// An output was switched; start or stop its helper and report.
    OutputChanged { output: OutputMode, enabled: bool, available: bool },
}

pub open spec fn word_get_status() -> Seq<char> {
    seq!['g', 'e', 't', '-', 's', 't', 'a', 't', 'u', 's']
}

pub open spec fn word_set_output() -> Seq<char> {
    seq!['s', 'e', 't', '-', 'o', 'u', 't', 'p', 'u', 't']
}

pub open spec fn word_toggle_output() -> Seq<char> {
    seq!['t', 'o', 'g', 'g', 'l', 'e', '-', 'o', 'u', 't', 'p', 'u', 't']
}

/// The command of a control request: its `command`, else its `action`,
/// else empty.
pub open spec fn control_command(command: Option<Seq<char>>, action: Option<Seq<char>>) -> Seq<char> {
    match command {
        Some(c) => c,
        None => match action {
            Some(a) => a,
            None => Seq::empty(),
        },
    }
}

/// The answer to a control request on `platform` with the outputs as they
/// were: `get-status` asks for statistics; `set-output` and
/// `toggle-output` switch the `output` they name, to `enabled` (else
/// `value`) or to the opposite of its state.
pub open spec fn control_outcome(
    targets: OutputTargets,
    platform: Platform,
    cmd: Seq<char>,
    output: Option<Seq<char>>,
    enabled: Option<bool>,
    value: Option<bool>,
) -> ControlAction {
    if cmd == word_get_status() {
        ControlAction::SendStats
    } else if cmd == word_set_output() || cmd == word_toggle_output() {
        match output {
            None => ControlAction::Reply(RelayError::OutputRequired),
            Some(name) => if platform == Platform::MacOs && name == OutputMode::Spout.name() {
                ControlAction::Reply(RelayError::SpoutUnsupportedOnMac)
            } else {
                match OutputMode::parsed(name) {
                    None => ControlAction::Reply(RelayError::UnknownOutput),
                    Some(m) => if !targets.available(m) {
                        ControlAction::Reply(RelayError::OutputUnavailable)
                    } else if cmd == word_toggle_output() {
                        ControlAction::OutputChanged {
                            output: m,
                            enabled: !targets.enabled(m),
                            available: true,
                        }
                    } else {
                        match enabled {
                            Some(b) => ControlAction::OutputChanged {
                                output: m,
                                enabled: b,
                                available: true,
                            },
                            None => match value {
                                Some(b) => ControlAction::OutputChanged {
                                    output: m,
                                    enabled: b,
                                    available: true,
                                },
                                None => ControlAction::Reply(RelayError::EnabledRequired),
                            },
                        }
                    },
                }
            },
        }
    } else {
        ControlAction::Reply(RelayError::UnsupportedControl)
    }
}

/// Decides a control request and switches the output it names.
pub fn handle_browser_port_control(
    targets: &mut OutputTargets,
    platform: Platform,
    command: Option<&str>,
    action: Option<&str>,
    output: Option<&str>,
    enabled: Option<bool>,
    value: Option<bool>,
) -> (r: ControlAction)
    requires
        old(targets).wf(),
    ensures
        final(targets).wf(),
        r == control_outcome(
            *old(targets),
            platform,
            control_command(
                match command {
                    Some(c) => Some(c@),
                    None => None,
                },
                match action {
                    Some(a) => Some(a@),
                    None => None,
                },
            ),
            match output {
                Some(o) => Some(o@),
                None => None,
            },
            enabled,
            value,
        ),
        *final(targets) == (match r {
            ControlAction::OutputChanged { output, enabled, .. } => old(targets).with_enabled(
                output,
                enabled,
            ),
            _ => *old(targets),
        }),
{
    let cmd: Vec<char> = match command {
        Some(c) => chars_of(c),
        None => match action {
            Some(a) => chars_of(a),
            None => Vec::new(),
        },
    };
    let ghost cmd_view = control_command(
        match command {
            Some(c) => Some(c@),
            None => None,
        },
        match action {
            Some(a) => Some(a@),
            None => None,
        },
    );
    assert(cmd@ =~= cmd_view);
    let get_status: [char; 10] = ['g', 'e', 't', '-', 's', 't', 'a', 't', 'u', 's'];
    let set_output: [char; 10] = ['s', 'e', 't', '-', 'o', 'u', 't', 'p', 'u', 't'];
    let toggle_output: [char; 13] = [
        't', 'o', 'g', 'g', 'l', 'e', '-', 'o', 'u', 't', 'p', 'u', 't',
    ];
    let spout: [char; 5] = ['s', 'p', 'o', 'u', 't'];
    assert(get_status@ == word_get_status());
    assert(set_output@ == word_set_output());
    assert(toggle_output@ == word_toggle_output());
    assert(spout@ == OutputMode::Spout.name());
    if chars_are(&cmd, &get_status) {
        return ControlAction::SendStats;
    }
    let toggle = chars_are(&cmd, &toggle_output);
    if !(chars_are(&cmd, &set_output) || toggle) {
        return ControlAction::Reply(RelayError::UnsupportedControl);
    }
    let name = match output {
        Some(o) => o,
        None => {
            return ControlAction::Reply(RelayError::OutputRequired);
        },
    };
    let name_chars = chars_of(name);
    if platform == Platform::MacOs && chars_are(&name_chars, &spout) {
        return ControlAction::Reply(RelayError::SpoutUnsupportedOnMac);
    }
    let mode = match OutputMode::parse(name) {
        Some(m) => m,
        None => {
            return ControlAction::Reply(RelayError::UnknownOutput);
        },
    };
    let available = match targets.output_available(name) {
        Some(a) => a,
        None => false,
    };
    if !available {
        return ControlAction::Reply(RelayError::OutputUnavailable);
    }
    let on = if toggle {
        let current = match targets.output_enabled(name) {
            Some(e) => e,
            None => false,
        };
        !current
    } else {
        match enabled {
            Some(b) => b,
            None => match value {
                Some(b) => b,
                None => {
                    return ControlAction::Reply(RelayError::EnabledRequired);
                },
            },
        }
    };
    let _ = targets.set_output(name, on);
    ControlAction::OutputChanged { output: mode, enabled: on, available }
}

/// The fields a control request is read for, as `serde_json` reads the
/// text `text` into a `Value`: `None` when the text is not JSON, and
/// otherwise its string `command`, `action` and `output` and its boolean
/// `enabled` and `value`, each `None` where the field is missing or of
/// another kind.
pub uninterp spec fn json_control_fields(text: Seq<char>) -> Option<
    (Option<Seq<char>>, Option<Seq<char>>, Option<Seq<char>>, Option<bool>, Option<bool>),
>;

/// The control fields as plain values.
pub open spec fn control_fields_view(
    fields: Option<(Option<String>, Option<String>, Option<String>, Option<bool>, Option<bool>)>,
) -> Option<(Option<Seq<char>>, Option<Seq<char>>, Option<Seq<char>>, Option<bool>, Option<bool>)> {
    match fields {
        Some((c, a, o, e, v)) => Some(
            (optional_string(c), optional_string(a), optional_string(o), e, v),
        ),
        None => None,
    }
}

/// The fields of a control request, all missing when its text is not JSON.
pub open spec fn control_fields_or_none(
    fields: Option<(Option<Seq<char>>, Option<Seq<char>>, Option<Seq<char>>, Option<bool>, Option<bool>)>,
) -> (Option<Seq<char>>, Option<Seq<char>>, Option<Seq<char>>, Option<bool>, Option<bool>) {
    match fields {
        Some(f) => f,
        None => (None, None, None, None, None),
    }
}

/// Calls `serde_json::from_str::<Value>` on a control request's text and
/// picks `command`, `action`, `output` (as strings), `enabled` and `value`
/// (as booleans).  The result is named by `json_control_fields`.
#[verifier::external_body]
fn read_control_fields(text: &str) -> (r: Option<
    (Option<String>, Option<String>, Option<String>, Option<bool>, Option<bool>),
>)
    ensures
        control_fields_view(r) == json_control_fields(text@),
{
    match serde_json::from_str::<Value>(text) {
        Ok(v) => Some((
            v.get("command").and_then(Value::as_str).map(String::from),
            v.get("action").and_then(Value::as_str).map(String::from),
            v.get("output").and_then(Value::as_str).map(String::from),
            v.get("enabled").and_then(Value::as_bool),
            v.get("value").and_then(Value::as_bool),
        )),
        Err(_) => None,
    }
}

fn as_text(value: &Option<String>) -> (r: Option<&str>)
    ensures
        match r {
            Some(t) => value matches Some(s) && t@ == s@,
            None => value is None,
        },
{
    match value {
        Some(s) => Some(s.as_str()),
        None => None,
    }
}

/// Reads a client's control request from its text, decides it and switches
/// the output it names.
pub fn handle_control_text(targets: &mut OutputTargets, platform: Platform, text: &str) -> (r:
    ControlAction)
    requires
        old(targets).wf(),
    ensures
        final(targets).wf(),
        ({
            let (command, action, output, enabled, value) = control_fields_or_none(
                json_control_fields(text@),
            );
            &&& r == control_outcome(
                *old(targets),
                platform,
                control_command(command, action),
                output,
                enabled,
                value,
            )
            &&& *final(targets) == (match r {
                ControlAction::OutputChanged { output, enabled, .. } => old(targets).with_enabled(
                    output,
                    enabled,
                ),
                _ => *old(targets),
            })
        }),
{
    let (command, action, output, enabled, value) = match read_control_fields(text) {
        Some(fields) => fields,
        None => (None, None, None, None, None),
    };
    handle_browser_port_control(
        targets,
        platform,
        as_text(&command),
        as_text(&action),
        as_text(&output),
        enabled,
        value,
    )
}

/// The outputs after a control request was answered.
pub open spec fn after_control(targets: OutputTargets, action: ControlAction) -> OutputTargets {
    match action {
        ControlAction::OutputChanged { output, enabled, .. } => targets.with_enabled(output, enabled),
        _ => targets,
    }
}

/// No control request switches on an output the host lacks: it is refused
/// as unavailable, and every output that is on stays available.
pub proof fn law_unavailable_output_stays_off(
    targets: OutputTargets,
    platform: Platform,
    cmd: Seq<char>,
    output: Option<Seq<char>>,
    enabled: Option<bool>,
    value: Option<bool>,
)
    requires
        targets.wf(),
    ensures
        ({
            let action = control_outcome(targets, platform, cmd, output, enabled, value);
            &&& after_control(targets, action).wf()
            &&& (output matches Some(name) && (OutputMode::parsed(name) matches Some(m)
                && !targets.available(m)) && (cmd == word_set_output() || cmd
                == word_toggle_output()) && !(platform == Platform::MacOs && name
                == OutputMode::Spout.name())) ==> action == ControlAction::Reply(
                RelayError::OutputUnavailable,
            )
        }),
{
    let action = control_outcome(targets, platform, cmd, output, enabled, value);
    if let ControlAction::OutputChanged { output: m, enabled: on, .. } = action {
        targets.lemma_with_enabled_wf(m, on);
    }
}

/// Toggling the same output twice leaves the outputs as they were.
pub proof fn law_toggle_twice_restores(targets: OutputTargets, platform: Platform, name: Seq<char>)
    requires
        targets.wf(),
    ensures
        ({
            let a1 = control_outcome(targets, platform, word_toggle_output(), Some(name), None, None);
            let t1 = after_control(targets, a1);
            let a2 = control_outcome(t1, platform, word_toggle_output(), Some(name), None, None);
            after_control(t1, a2) == targets
        }),
{
    assert(word_toggle_output() != word_get_status());
}

/// On macOS a request to switch Spout is refused as unsupported.
pub proof fn law_spout_refused_on_macos(targets: OutputTargets, cmd: Seq<char>, enabled: Option<bool>, value: Option<bool>)
    requires
        cmd == word_set_output() || cmd == word_toggle_output(),
    ensures
        control_outcome(targets, Platform::MacOs, cmd, Some(OutputMode::Spout.name()), enabled, value)
            == ControlAction::Reply(RelayError::SpoutUnsupportedOnMac),
{
    assert(word_set_output() != word_get_status());
    assert(word_toggle_output() != word_get_status());
}

/// Time (microseconds) without helper statistics, while video flows, after
/// which the Spout helper counts as stalled.
pub const SPOUT_HELPER_STALL_TIMEOUT_US: u64 = 3_000_000;

/// Video chunks a stream may carry before its first helper statistics
/// without the helper counting as stalled.
pub const SPOUT_HELPER_STALL_GRACE_CHUNKS: u64 = 60;

/// Time (microseconds) the Spout helper stays off its texture path before
/// the path is tried again.
pub const SPOUT_FASTPATH_RETRY_COOLDOWN_US: u64 = 20_000_000;

/// When a stream last carried video and last got helper statistics
/// (microseconds of a monotonic clock), and how many video chunks it carried.
#[derive(Clone, Copy, Debug, PartialEq, Eq, Structural)]
pub struct StreamActivity {
    pub last_video_chunk_us: Option<u64>,
    pub last_helper_stats_us: Option<u64>,
    pub video_chunks: u64,
}

/// Time from `at` to `now_us`, zero when `at` is later.
pub open spec fn since(now_us: u64, at: u64) -> int {
    if now_us >= at {
        now_us - at
    } else {
        0
    }
}

/// The stream carried video within the stall timeout.
pub open spec fn video_active(s: StreamActivity, now_us: u64) -> bool {
    s.last_video_chunk_us matches Some(at) && since(now_us, at) <= SPOUT_HELPER_STALL_TIMEOUT_US
}

/// The stream carries video but the helper has not reported on it in time:
/// its last statistics are older than the timeout, or it never reported
/// and the grace chunks are used up.
pub open spec fn stream_stalled(s: StreamActivity, now_us: u64) -> bool {
    &&& video_active(s, now_us)
    &&& match s.last_helper_stats_us {
        Some(at) => since(now_us, at) > SPOUT_HELPER_STALL_TIMEOUT_US,
        None => s.video_chunks >= SPOUT_HELPER_STALL_GRACE_CHUNKS,
    }
}

/// The helper reported on the stream within the timeout.
pub open spec fn helper_recent(s: StreamActivity, now_us: u64) -> bool {
    s.last_helper_stats_us matches Some(at) && since(now_us, at) <= SPOUT_HELPER_STALL_TIMEOUT_US
}

fn elapsed_within(now_us: u64, at: Option<u64>, limit: u64) -> (r: bool)
    ensures
        r == (at matches Some(t) && since(now_us, t) <= limit),
{
    match at {
        Some(t) => now_us.saturating_sub(t) <= limit,
        None => false,
    }
}

/// Whether some stream carries video that the helper is not keeping up with.
pub fn spout_helper_stalled(streams: &[StreamActivity], now_us: u64) -> (r: bool)
    ensures
        r == exists|i: int| 0 <= i < streams@.len() && stream_stalled(#[trigger] streams@[i], now_us),
{
    let n = streams.len();
    let mut i: usize = 0;
    while i < n
        invariant
            n == streams@.len(),
            i <= n,
            forall|j: int| 0 <= j < i ==> !stream_stalled(#[trigger] streams@[j], now_us),
        decreases n - i,
    {
        let s = streams[i];
        if elapsed_within(now_us, s.last_video_chunk_us, SPOUT_HELPER_STALL_TIMEOUT_US) {
            let stalled = match s.last_helper_stats_us {
                Some(at) => now_us.saturating_sub(at) > SPOUT_HELPER_STALL_TIMEOUT_US,
                None => s.video_chunks >= SPOUT_HELPER_STALL_GRACE_CHUNKS,
            };
            if stalled {
                assert(stream_stalled(streams@[i as int], now_us));
                return true;
            }
        }
        i = i + 1;
    }
    false
}

/// Whether some stream carries video and the helper reports on every stream
/// that does.
pub fn spout_helper_healthy(streams: &[StreamActivity], now_us: u64) -> (r: bool)
    ensures
        r == ((exists|i: int| 0 <= i < streams@.len() && video_active(#[trigger] streams@[i], now_us))
            && forall|i: int|
            0 <= i < streams@.len() && video_active(#[trigger] streams@[i], now_us) ==> helper_recent(
                streams@[i],
                now_us,
            )),
{
    let n = streams.len();
    let mut has_active = false;
    let mut i: usize = 0;
    while i < n
        invariant
            n == streams@.len(),
            i <= n,
            has_active == exists|j: int| 0 <= j < i && video_active(#[trigger] streams@[j], now_us),
            forall|j: int|
                0 <= j < i && video_active(#[trigger] streams@[j], now_us) ==> helper_recent(
                    streams@[j],
                    now_us,
                ),
        decreases n - i,
    {
        let s = streams[i];
        if elapsed_within(now_us, s.last_video_chunk_us, SPOUT_HELPER_STALL_TIMEOUT_US) {
            has_active = true;
            if !elapsed_within(now_us, s.last_helper_stats_us, SPOUT_HELPER_STALL_TIMEOUT_US) {
                return false;
            }
        }
        i = i + 1;
    }
    has_active
}

/// The Spout helper's texture-path watchdog.
#[derive(Clone, Copy, Debug, PartialEq, Eq, Structural)]
pub struct SpoutWatchdog {
    /// The helper runs with its texture path switched off.
    pub fastpath_forced_off: bool,
    /// When the path was last switched.
    pub switched_at_us: Option<u64>,
    /// The path is being retried.
    pub retry_in_progress: bool,
    /// Retries that ended in a stall.
    pub retry_failures: u32,
}

/// What the watchdog asks of the caller.
#[derive(Clone, Copy, Debug, PartialEq, Eq, Structural)]
pub enum WatchdogAction {
    /// Nothing.
    Keep,
    /// Restart the Spout helper with its texture path off.
    RestartWithoutFastpath,
    /// Restart the Spout helper with its texture path on.
    RestartWithFastpath,
}

impl SpoutWatchdog {
    pub fn new() -> (r: SpoutWatchdog)
        ensures
            r == (SpoutWatchdog {
                fastpath_forced_off: false,
                switched_at_us: None,
                retry_in_progress: false,
                retry_failures: 0,
            }),
    {
        SpoutWatchdog {
            fastpath_forced_off: false,
            switched_at_us: None,
            retry_in_progress: false,
            retry_failures: 0,
        }
    }

    /// The watchdog after the helper was found stalled at `now_us`.
    pub open spec fn after_stall(self, now_us: u64) -> SpoutWatchdog {
        if self.fastpath_forced_off {
            self
        } else {
            SpoutWatchdog {
                fastpath_forced_off: true,
                switched_at_us: Some(now_us),
                retry_in_progress: false,
                retry_failures: if self.retry_in_progress {
                    if self.retry_failures == u32::MAX {
                        u32::MAX
                    } else {
                        (self.retry_failures + 1) as u32
                    }
                } else {
                    self.retry_failures
                },
            }
        }
    }

    /// Whether a retry of the texture path is due at `now_us`: only while it
    /// is off, only if no retry ever failed, and only after the cool-down.
    pub open spec fn retry_due(self, now_us: u64) -> bool {
        self.fastpath_forced_off && self.retry_failures == 0 && (self.switched_at_us matches Some(
            at,
        ) && since(now_us, at) >= SPOUT_FASTPATH_RETRY_COOLDOWN_US)
    }

    /// Switches the helper off its texture path after a stall; a stall
    /// during a retry counts as a failed retry.  Returns whether the helper
    /// is to be restarted that way.
    pub fn force_cpu_fallback_if_needed(&mut self, now_us: u64) -> (restart: bool)
        ensures
            restart == !old(self).fastpath_forced_off,
            *final(self) == old(self).after_stall(now_us),
    {
        if self.fastpath_forced_off {
            return false;
        }
        if self.retry_in_progress {
            self.retry_failures = self.retry_failures.saturating_add(1);
            self.retry_in_progress = false;
        }
        self.fastpath_forced_off = true;
        self.switched_at_us = Some(now_us);
        true
    }

    /// Tries the texture path again once the cool-down has passed.  Returns
    /// whether the helper is to be restarted with it.
    pub fn retry_spout_fastpath_if_due(&mut self, now_us: u64) -> (restart: bool)
        ensures
            restart == old(self).retry_due(now_us),
            restart ==> *final(self) == (SpoutWatchdog {
                fastpath_forced_off: false,
                switched_at_us: Some(now_us),
                retry_in_progress: true,
                retry_failures: old(self).retry_failures,
            }),
            !restart ==> *final(self) == *old(self),
    {
        if !self.fastpath_forced_off {
            return false;
        }
        if self.retry_failures > 0 {
            return false;
        }
        let switched_at = match self.switched_at_us {
            Some(at) => at,
            None => {
                return false;
            },
        };
        if now_us.saturating_sub(switched_at) < SPOUT_FASTPATH_RETRY_COOLDOWN_US {
            return false;
        }
        self.fastpath_forced_off = false;
        self.switched_at_us = Some(now_us);
        self.retry_in_progress = true;
        true
    }

    /// The helper could not be restarted for a retry: the texture path stays off.
    pub fn retry_start_failed(&mut self)
        ensures
            *final(self) == (SpoutWatchdog {
                fastpath_forced_off: true,
                retry_in_progress: false,
                ..*old(self)
            }),
    {
        self.fastpath_forced_off = true;
        self.retry_in_progress = false;
    }

    /// One watchdog round: when it is on and Spout is enabled, a stalled
    /// helper loses its texture path, and a healthy one gets it back when due.
    pub fn step(&mut self, watchdog_enabled: bool, spout_enabled: bool, stalled: bool, healthy: bool, now_us: u64) -> (r:
        WatchdogAction)
        ensures
            !(watchdog_enabled && spout_enabled) ==> r == WatchdogAction::Keep && *final(self)
                == *old(self),
            (watchdog_enabled && spout_enabled && stalled) ==> *final(self) == old(self).after_stall(
                now_us,
            ) && r == (if old(self).fastpath_forced_off {
                WatchdogAction::Keep
            } else {
                WatchdogAction::RestartWithoutFastpath
            }),
            (watchdog_enabled && spout_enabled && !stalled && healthy) ==> r == (if old(
                self,
            ).retry_due(now_us) {
                WatchdogAction::RestartWithFastpath
            } else {
                WatchdogAction::Keep
            }),
            (watchdog_enabled && spout_enabled && !stalled && healthy && old(self).retry_due(now_us))
                ==> *final(self) == (SpoutWatchdog {
                fastpath_forced_off: false,
                switched_at_us: Some(now_us),
                retry_in_progress: true,
                retry_failures: old(self).retry_failures,
            }),
            (watchdog_enabled && spout_enabled && !stalled && healthy && !old(self).retry_due(now_us))
                ==> *final(self) == *old(self),
            (watchdog_enabled && spout_enabled && !stalled && !healthy) ==> r == WatchdogAction::Keep
                && *final(self) == *old(self),
    {
        if !(watchdog_enabled && spout_enabled) {
            return WatchdogAction::Keep;
        }
        if stalled {
            if self.force_cpu_fallback_if_needed(now_us) {
                return WatchdogAction::RestartWithoutFastpath;
            }
            return WatchdogAction::Keep;
        }
        if healthy && self.retry_spout_fastpath_if_due(now_us) {
            return WatchdogAction::RestartWithFastpath;
        }
        WatchdogAction::Keep
    }
}

} // verus!
