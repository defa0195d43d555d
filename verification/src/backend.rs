//! Output modes, decode backends and the switches that choose them.
//!
//! Which backends exist depends on the operating system the helper runs on;
//! that is passed in as a `Platform` value.

use vstd::prelude::*;

use crate::text::{
    chars_are, chars_of, is_keyword, lemma_keyword_is_normalized, normalized, normalized_is,
};

verus! {

/// The operating system family the helper runs on.
#[derive(Clone, Copy, Debug, PartialEq, Eq, Structural)]
pub enum Platform {
    Windows,
    MacOs,
    Other,
}

/// Where decoded frames are published.
#[derive(Clone, Copy, Debug, PartialEq, Eq, Structural)]
pub enum OutputMode {
    Spout,
    Syphon,
    Ndi,
}

/// Which decoder the user asked for.
#[derive(Clone, Copy, Debug, PartialEq, Eq, Structural)]
pub enum DecodeBackendPreference {
    Auto,
    VideoToolbox,
    Mf,
    OpenH264,
}

/// A decoder implementation.
#[derive(Clone, Copy, Debug, PartialEq, Eq, Structural)]
pub enum DecodeBackendKind {
    VideoToolbox,
    MfD3d11,
    OpenH264,
}

/// How a frame left the helper.
#[derive(Clone, Copy, Debug, PartialEq, Eq, Structural)]
pub enum SendPath {
    NoPath,
    Bgra,
    Texture,
    Ndi,
    SyphonBgra,
    SyphonMetalTexture,
}

/// State of the GPU texture fast path.
#[derive(Clone, Copy, Debug, PartialEq, Eq, Structural)]
pub enum FastpathState {
    Texture,
    BgraFallback,
    Retrying,
}

impl OutputMode {
    pub open spec fn name(self) -> Seq<char> {
        match self {
            OutputMode::Spout => seq!['s', 'p', 'o', 'u', 't'],
            OutputMode::Syphon => seq!['s', 'y', 'p', 'h', 'o', 'n'],
            OutputMode::Ndi => seq!['n', 'd', 'i'],
        }
    }

    pub fn as_str(self) -> (r: &'static str)
        ensures
            r@ == self.name(),
    {
        proof {
            reveal_strlit("spout");
            reveal_strlit("syphon");
            reveal_strlit("ndi");
        }
        match self {
            OutputMode::Spout => "spout",
            OutputMode::Syphon => "syphon",
            OutputMode::Ndi => "ndi",
        }
    }

    /// The mode whose name `value` is exactly.
    pub open spec fn parsed(value: Seq<char>) -> Option<OutputMode> {
        if value == OutputMode::Spout.name() {
            Some(OutputMode::Spout)
        } else if value == OutputMode::Syphon.name() {
            Some(OutputMode::Syphon)
        } else if value == OutputMode::Ndi.name() {
            Some(OutputMode::Ndi)
        } else {
            None
        }
    }

    pub fn parse(value: &str) -> (r: Option<OutputMode>)
        ensures
            r == OutputMode::parsed(value@),
    {
        let chars = chars_of(value);
        if chars_are(&chars, &['s', 'p', 'o', 'u', 't']) {
            Some(OutputMode::Spout)
        } else if chars_are(&chars, &['s', 'y', 'p', 'h', 'o', 'n']) {
            Some(OutputMode::Syphon)
        } else if chars_are(&chars, &['n', 'd', 'i']) {
            Some(OutputMode::Ndi)
        } else {
            None
        }
    }
}

impl DecodeBackendPreference {
    pub open spec fn name(self) -> Seq<char> {
        match self {
            DecodeBackendPreference::Auto => seq!['a', 'u', 't', 'o'],
            DecodeBackendPreference::VideoToolbox => seq![
                'v', 'i', 'd', 'e', 'o', 't', 'o', 'o', 'l', 'b', 'o', 'x'
            ],
            DecodeBackendPreference::Mf => seq!['m', 'f'],
            DecodeBackendPreference::OpenH264 => seq!['o', 'p', 'e', 'n', 'h', '2', '6', '4'],
        }
    }

    pub fn as_str(self) -> (r: &'static str)
        ensures
            r@ == self.name(),
    {
        proof {
            reveal_strlit("auto");
            reveal_strlit("videotoolbox");
            reveal_strlit("mf");
            reveal_strlit("openh264");
        }
        match self {
            DecodeBackendPreference::Auto => "auto",
            DecodeBackendPreference::VideoToolbox => "videotoolbox",
            DecodeBackendPreference::Mf => "mf",
            DecodeBackendPreference::OpenH264 => "openh264",
        }
    }
}

impl DecodeBackendKind {
    pub open spec fn name(self) -> Seq<char> {
        match self {
            DecodeBackendKind::VideoToolbox => seq![
                'v', 'i', 'd', 'e', 'o', 't', 'o', 'o', 'l', 'b', 'o', 'x'
            ],
            DecodeBackendKind::MfD3d11 => seq!['m', 'f', '-', 'd', '3', 'd', '1', '1'],
            DecodeBackendKind::OpenH264 => seq!['o', 'p', 'e', 'n', 'h', '2', '6', '4'],
        }
    }

    pub fn as_str(self) -> (r: &'static str)
        ensures
            r@ == self.name(),
    {
        proof {
            reveal_strlit("videotoolbox");
            reveal_strlit("mf-d3d11");
            reveal_strlit("openh264");
        }
        match self {
            DecodeBackendKind::VideoToolbox => "videotoolbox",
            DecodeBackendKind::MfD3d11 => "mf-d3d11",
            DecodeBackendKind::OpenH264 => "openh264",
        }
    }

    /// Whether this decoder exists on `platform`.
    pub open spec fn available_on(self, platform: Platform) -> bool {
        match self {
            DecodeBackendKind::VideoToolbox => platform == Platform::MacOs,
            DecodeBackendKind::MfD3d11 => platform == Platform::Windows,
            DecodeBackendKind::OpenH264 => true,
        }
    }
}

impl SendPath {
    pub open spec fn name(self) -> Seq<char> {
        match self {
            SendPath::NoPath => seq!['n', 'o', 'n', 'e'],
            SendPath::Bgra => seq!['b', 'g', 'r', 'a'],
            SendPath::Texture => seq!['t', 'e', 'x', 't', 'u', 'r', 'e'],
            SendPath::Ndi => seq!['n', 'd', 'i'],
            SendPath::SyphonBgra => seq!['s', 'y', 'p', 'h', 'o', 'n', '-', 'b', 'g', 'r', 'a'],
            SendPath::SyphonMetalTexture => seq![
                's', 'y', 'p', 'h', 'o', 'n', '-', 'm', 'e', 't', 'a', 'l', '-', 't', 'e', 'x',
                't', 'u', 'r', 'e'
            ],
        }
    }

    pub fn as_str(self) -> (r: &'static str)
        ensures
            r@ == self.name(),
    {
        proof {
            reveal_strlit("none");
            reveal_strlit("bgra");
            reveal_strlit("texture");
            reveal_strlit("ndi");
            reveal_strlit("syphon-bgra");
            reveal_strlit("syphon-metal-texture");
        }
        match self {
            SendPath::NoPath => "none",
            SendPath::Bgra => "bgra",
            SendPath::Texture => "texture",
            SendPath::Ndi => "ndi",
            SendPath::SyphonBgra => "syphon-bgra",
            SendPath::SyphonMetalTexture => "syphon-metal-texture",
        }
    }
}

impl FastpathState {
    pub open spec fn name(self) -> Seq<char> {
        match self {
            FastpathState::Texture => seq!['t', 'e', 'x', 't', 'u', 'r', 'e'],
            FastpathState::BgraFallback => seq![
                'b', 'g', 'r', 'a', '-', 'f', 'a', 'l', 'l', 'b', 'a', 'c', 'k'
            ],
            FastpathState::Retrying => seq!['r', 'e', 't', 'r', 'y', 'i', 'n', 'g'],
        }
    }

    pub fn as_str(self) -> (r: &'static str)
        ensures
            r@ == self.name(),
    {
        proof {
            reveal_strlit("texture");
            reveal_strlit("bgra-fallback");
            reveal_strlit("retrying");
        }
        match self {
            FastpathState::Texture => "texture",
            FastpathState::BgraFallback => "bgra-fallback",
            FastpathState::Retrying => "retrying",
        }
    }
}

/// The switch value `raw` as a boolean: after trimming and ASCII
/// lower-casing, `1`, `true`, `yes`, `on` are true and `0`, `false`, `no`,
/// `off` are false; anything else is no answer.
pub open spec fn env_bool(raw: Seq<char>) -> Option<bool> {
    let n = normalized(raw);
    if n == seq!['1'] || n == seq!['t', 'r', 'u', 'e'] || n == seq!['y', 'e', 's'] || n == seq![
        'o',
        'n',
    ] {
        Some(true)
    } else if n == seq!['0'] || n == seq!['f', 'a', 'l', 's', 'e'] || n == seq!['n', 'o'] || n
        == seq!['o', 'f', 'f'] {
        Some(false)
    } else {
        None
    }
}

pub fn parse_env_bool(raw: &str) -> (r: Option<bool>)
    ensures
        r == env_bool(raw@),
{
    let chars = chars_of(raw);
    proof {
        assert(is_keyword(seq!['1']));
        assert(is_keyword(seq!['t', 'r', 'u', 'e']));
        assert(is_keyword(seq!['y', 'e', 's']));
        assert(is_keyword(seq!['o', 'n']));
        assert(is_keyword(seq!['0']));
        assert(is_keyword(seq!['f', 'a', 'l', 's', 'e']));
        assert(is_keyword(seq!['n', 'o']));
        assert(is_keyword(seq!['o', 'f', 'f']));
    }
    let one: [char; 1] = ['1'];
    let t: [char; 4] = ['t', 'r', 'u', 'e'];
    let y: [char; 3] = ['y', 'e', 's'];
    let on: [char; 2] = ['o', 'n'];
    let zero: [char; 1] = ['0'];
    let f: [char; 5] = ['f', 'a', 'l', 's', 'e'];
    let no: [char; 2] = ['n', 'o'];
    let off: [char; 3] = ['o', 'f', 'f'];
    assert(one@ == seq!['1']);
    assert(t@ == seq!['t', 'r', 'u', 'e']);
    assert(y@ == seq!['y', 'e', 's']);
    assert(on@ == seq!['o', 'n']);
    assert(zero@ == seq!['0']);
    assert(f@ == seq!['f', 'a', 'l', 's', 'e']);
    assert(no@ == seq!['n', 'o']);
    assert(off@ == seq!['o', 'f', 'f']);
    if normalized_is(&chars, &one) || normalized_is(&chars, &t) || normalized_is(&chars, &y)
        || normalized_is(&chars, &on) {
        Some(true)
    } else if normalized_is(&chars, &zero) || normalized_is(&chars, &f) || normalized_is(
        &chars,
        &no,
    ) || normalized_is(&chars, &off) {
        Some(false)
    } else {
        None
    }
}

/// The preference that the switch `value` names on `platform`: after
/// trimming and ASCII lower-casing, `auto`, `mf`, `openh264`, and on macOS
/// also `vt` or `videotoolbox`.
pub open spec fn decode_preference_named(value: Seq<char>, platform: Platform) -> Option<
    DecodeBackendPreference,
> {
    let n = normalized(value);
    if n == DecodeBackendPreference::Auto.name() {
        Some(DecodeBackendPreference::Auto)
    } else if platform == Platform::MacOs && (n == seq!['v', 't']
        || n == DecodeBackendPreference::VideoToolbox.name()) {
        Some(DecodeBackendPreference::VideoToolbox)
    } else if n == DecodeBackendPreference::Mf.name() {
        Some(DecodeBackendPreference::Mf)
    } else if n == DecodeBackendPreference::OpenH264.name() {
        Some(DecodeBackendPreference::OpenH264)
    } else {
        None
    }
}

pub fn parse_decode_backend_preference(value: &str, platform: Platform) -> (r: Option<
    DecodeBackendPreference,
>)
    ensures
        r == decode_preference_named(value@, platform),
{
    let chars = chars_of(value);
    let auto: [char; 4] = ['a', 'u', 't', 'o'];
    let vt: [char; 2] = ['v', 't'];
    let videotoolbox: [char; 12] = ['v', 'i', 'd', 'e', 'o', 't', 'o', 'o', 'l', 'b', 'o', 'x'];
    let mf: [char; 2] = ['m', 'f'];
    let openh264: [char; 8] = ['o', 'p', 'e', 'n', 'h', '2', '6', '4'];
    assert(auto@ == DecodeBackendPreference::Auto.name());
    assert(vt@ == seq!['v', 't']);
    assert(videotoolbox@ == DecodeBackendPreference::VideoToolbox.name());
    assert(mf@ == DecodeBackendPreference::Mf.name());
    assert(openh264@ == DecodeBackendPreference::OpenH264.name());
    assert(is_keyword(auto@));
    assert(is_keyword(vt@));
    assert(is_keyword(videotoolbox@));
    assert(is_keyword(mf@));
    assert(is_keyword(openh264@));
    if normalized_is(&chars, &auto) {
        Some(DecodeBackendPreference::Auto)
    } else if platform == Platform::MacOs && (normalized_is(&chars, &vt) || normalized_is(
        &chars,
        &videotoolbox,
    )) {
        Some(DecodeBackendPreference::VideoToolbox)
    } else if normalized_is(&chars, &mf) {
        Some(DecodeBackendPreference::Mf)
    } else if normalized_is(&chars, &openh264) {
        Some(DecodeBackendPreference::OpenH264)
    } else {
        None
    }
}

/// A preference's own name parses back to it on every platform that reads
/// that name: everywhere, and for VideoToolbox on macOS.
pub proof fn law_preference_name_round_trip(preference: DecodeBackendPreference, platform: Platform)
    requires
        preference == DecodeBackendPreference::VideoToolbox ==> platform == Platform::MacOs,
    ensures
        decode_preference_named(preference.name(), platform) == Some(preference),
{
    assert(is_keyword(preference.name()));
    lemma_keyword_is_normalized(preference.name());
}

/// An output mode's own name parses back to it.
pub proof fn law_output_mode_name_round_trip(mode: OutputMode)
    ensures
        OutputMode::parsed(mode.name()) == Some(mode),
{
}

/// The decoders to try for `preference` on `platform`, most preferred first.
pub open spec fn backend_order(preference: DecodeBackendPreference, platform: Platform) -> Seq<
    DecodeBackendKind,
> {
    match preference {
        DecodeBackendPreference::OpenH264 => seq![DecodeBackendKind::OpenH264],
        _ => match platform {
            Platform::MacOs => seq![DecodeBackendKind::VideoToolbox, DecodeBackendKind::OpenH264],
            Platform::Windows => if preference == DecodeBackendPreference::VideoToolbox {
                seq![DecodeBackendKind::OpenH264]
            } else {
                seq![DecodeBackendKind::MfD3d11, DecodeBackendKind::OpenH264]
            },
            Platform::Other => seq![DecodeBackendKind::OpenH264],
        },
    }
}

pub fn preferred_backend_order(preference: DecodeBackendPreference, platform: Platform) -> (r: Vec<
    DecodeBackendKind,
>)
    ensures
        r@ == backend_order(preference, platform),
{
    let mut order: Vec<DecodeBackendKind> = Vec::new();
    match preference {
        DecodeBackendPreference::OpenH264 => {
            order.push(DecodeBackendKind::OpenH264);
        },
        DecodeBackendPreference::VideoToolbox => {
            if platform == Platform::MacOs {
                order.push(DecodeBackendKind::VideoToolbox);
            }
            order.push(DecodeBackendKind::OpenH264);
        },
        DecodeBackendPreference::Mf | DecodeBackendPreference::Auto => {
            if platform == Platform::MacOs {
                order.push(DecodeBackendKind::VideoToolbox);
            }
            if platform == Platform::Windows {
                order.push(DecodeBackendKind::MfD3d11);
            }
            order.push(DecodeBackendKind::OpenH264);
        },
    }
    assert(order@ =~= backend_order(preference, platform));
    order
}

/// The order is never empty, ends with the software decoder, lists each
/// decoder at most once, and lists only decoders that `platform` has.
pub proof fn law_backend_order_well_formed(preference: DecodeBackendPreference, platform: Platform)
    ensures
        backend_order(preference, platform).len() > 0,
        backend_order(preference, platform).last() == DecodeBackendKind::OpenH264,
        forall|i: int|
            0 <= i < backend_order(preference, platform).len() ==> (#[trigger] backend_order(
                preference,
                platform,
            )[i]).available_on(platform),
        forall|i: int, j: int|
            0 <= i < j < backend_order(preference, platform).len() ==> backend_order(
                preference,
                platform,
            )[i] != backend_order(preference, platform)[j],
{
}

/// The first decoder in `preference`'s order on `platform` that
/// `is_available` accepts.
pub fn select_backend_with<F: Fn(DecodeBackendKind) -> bool>(
    preference: DecodeBackendPreference,
    platform: Platform,
    is_available: F,
) -> (r: Option<DecodeBackendKind>)
    requires
        forall|k: DecodeBackendKind| call_requires(is_available, (k,)),
    ensures
        match r {
            Some(k) => exists|i: int|
                0 <= i < backend_order(preference, platform).len() && backend_order(
                    preference,
                    platform,
                )[i] == k && call_ensures(is_available, (k,), true) && forall|j: int|
                    0 <= j < i ==> call_ensures(
                        is_available,
                        (#[trigger] backend_order(preference, platform)[j],),
                        false,
                    ),
            None => forall|j: int|
                0 <= j < backend_order(preference, platform).len() ==> call_ensures(
                    is_available,
                    (#[trigger] backend_order(preference, platform)[j],),
                    false,
                ),
        },
{
    let order = preferred_backend_order(preference, platform);
    let n = order.len();
    let mut i: usize = 0;
    while i < n
        invariant
            n == order@.len(),
            order@ == backend_order(preference, platform),
            i <= n,
            forall|k: DecodeBackendKind| call_requires(is_available, (k,)),
            forall|j: int| 0 <= j < i ==> call_ensures(is_available, (#[trigger] order@[j],), false),
        decreases n - i,
    {
        let k = order[i];
        let ok = is_available(k);
        if ok {
            assert(order@[i as int] == k);
            return Some(k);
        }
        i = i + 1;
    }
    None
}

/// Whether the agent starts as a tray or menu-bar app: never when the
/// headless switch is on; always when the tray switch is on; otherwise on
/// Windows and macOS.
pub open spec fn launches_menu_bar_app(headless: Option<Seq<char>>, tray: Option<Seq<char>>, platform: Platform) -> bool {
    if (headless matches Some(h) && env_bool(h) == Some(true)) {
        false
    } else if (tray matches Some(t) && env_bool(t) == Some(true)) {
        true
    } else {
        platform == Platform::Windows || platform == Platform::MacOs
    }
}

/// Decides the start mode from the headless and tray switches (when set).
pub fn should_launch_menu_bar_app(headless: Option<&str>, tray: Option<&str>, platform: Platform) -> (r: bool)
    ensures
        r == launches_menu_bar_app(
            match headless {
                Some(h) => Some(h@),
                None => None,
            },
            match tray {
                Some(t) => Some(t@),
                None => None,
            },
            platform,
        ),
{
    let headless_on = match headless {
        Some(h) => match parse_env_bool(h) {
            Some(b) => b,
            None => false,
        },
        None => false,
    };
    if headless_on {
        return false;
    }
    let tray_on = match tray {
        Some(t) => match parse_env_bool(t) {
            Some(b) => b,
            None => false,
        },
        None => false,
    };
    if tray_on {
        return true;
    }
    platform == Platform::Windows || platform == Platform::MacOs
}

} // verus!
