//! Text for the desktop menus: UTF-16 strings as Windows takes them, and
//! the summary of a player's outputs.

use vstd::prelude::*;

use crate::text::chars_of;

verus! {

/// The UTF-16 code units of one character.
pub open spec fn utf16_of(c: char) -> Seq<u16> {
    let v = c as u32;
    if v < 0x10000 {
        seq![v as u16]
    } else {
        let x = (v - 0x10000) as u32;
        seq![(0xD800 + x / 1024) as u16, (0xDC00 + x % 1024) as u16]
    }
}

/// The UTF-16 code units of a string.
pub open spec fn utf16(s: Seq<char>) -> Seq<u16>
    decreases s.len(),
{
    if s.len() == 0 {
        Seq::empty()
    } else {
        utf16(s.drop_last()) + utf16_of(s.last())
    }
}

proof fn lemma_char_range(c: char)
    ensures
        (c as u32) <= 0x10FFFF,
{
}

fn push_utf16(out: &mut Vec<u16>, c: char)
    ensures
        final(out)@ == old(out)@ + utf16_of(c),
{
    let v = c as u32;
    proof {
        lemma_char_range(c);
    }
    if v < 0x10000 {
        out.push(v as u16);
        assert(out@ =~= old(out)@ + utf16_of(c));
    } else {
        let x = v - 0x10000;
        out.push((0xD800 + x / 1024) as u16);
        out.push((0xDC00 + x % 1024) as u16);
        assert(out@ =~= old(out)@ + utf16_of(c));
    }
}

fn encode_utf16(value: &str) -> (r: Vec<u16>)
    ensures
        r@ == utf16(value@),
{
    let chars = chars_of(value);
    let n = chars.len();
    let mut out: Vec<u16> = Vec::new();
    let mut i: usize = 0;
    while i < n
        invariant
            n == chars@.len(),
            chars@ == value@,
            i <= n,
            out@ == utf16(chars@.subrange(0, i as int)),
        decreases n - i,
    {
        proof {
            let next = chars@.subrange(0, i + 1);
            assert(next.drop_last() =~= chars@.subrange(0, i as int));
            assert(next.last() == chars@[i as int]);
        }
        push_utf16(&mut out, chars[i]);
        i = i + 1;
    }
    assert(chars@.subrange(0, n as int) =~= chars@);
    out
}

/// `value` as UTF-16 with a terminating zero.
pub fn wide_null(value: &str) -> (r: Vec<u16>)
    ensures
        r@ == utf16(value@).push(0),
{
    let mut out = encode_utf16(value);
    out.push(0);
    out
}

/// Copies as much of `value` in UTF-16 as fits before the last unit of
/// `buffer`, and ends it with a zero there; an empty buffer is left alone.
pub fn copy_wide_truncated(buffer: &mut [u16], value: &str)
    ensures
        final(buffer)@.len() == old(buffer)@.len(),
        old(buffer)@.len() == 0 ==> final(buffer)@ == old(buffer)@,
        old(buffer)@.len() > 0 ==> ({
            let max = old(buffer)@.len() - 1;
            let units = utf16(value@);
            let copied = if units.len() < max {
                units.len() as int
            } else {
                max
            };
            &&& forall|i: int| 0 <= i < copied ==> #[trigger] final(buffer)@[i] == units[i]
            &&& forall|i: int| copied <= i < max ==> #[trigger] final(buffer)@[i] == old(buffer)@[i]
            &&& final(buffer)@[max] == 0
        }),
{
    let n = buffer.len();
    if n == 0 {
        return;
    }
    let max = n - 1;
    let units = encode_utf16(value);
    let copied = if units.len() < max {
        units.len()
    } else {
        max
    };
    let mut i: usize = 0;
    while i < copied
        invariant
            n == buffer@.len(),
            n == old(buffer)@.len(),
            max == n - 1,
            copied <= max,
            copied <= units@.len(),
            i <= copied,
            forall|j: int| 0 <= j < i ==> #[trigger] buffer@[j] == units@[j],
            forall|j: int| i <= j < n ==> #[trigger] buffer@[j] == old(buffer)@[j],
        decreases copied - i,
    {
        buffer[i] = units[i];
        i = i + 1;
    }
    buffer[max] = 0;
}

/// The outputs a player is shown on: a player's own report wins, else the
/// output's switch; NDI first, then Syphon, separated by a space.
pub open spec fn player_outputs_text(
    ndi_connected: Option<bool>,
    syphon_connected: Option<bool>,
    ndi_enabled: bool,
    syphon_enabled: bool,
) -> Seq<char> {
    let ndi = match ndi_connected {
        Some(b) => b,
        None => ndi_enabled,
    };
    let syphon = match syphon_connected {
        Some(b) => b,
        None => syphon_enabled,
    };
    if ndi && syphon {
        "NDI Syphon"@
    } else if ndi {
        "NDI"@
    } else if syphon {
        "Syphon"@
    } else {
        Seq::empty()
    }
}

pub fn format_player_outputs(
    ndi_connected: Option<bool>,
    syphon_connected: Option<bool>,
    ndi_enabled: bool,
    syphon_enabled: bool,
) -> (r: String)
    ensures
        r@ == player_outputs_text(ndi_connected, syphon_connected, ndi_enabled, syphon_enabled),
{
    let ndi = match ndi_connected {
        Some(b) => b,
        None => ndi_enabled,
    };
    let syphon = match syphon_connected {
        Some(b) => b,
        None => syphon_enabled,
    };
    if ndi && syphon {
        "NDI Syphon".to_owned()
    } else if ndi {
        "NDI".to_owned()
    } else if syphon {
        "Syphon".to_owned()
    } else {
        String::new()
    }
}

} // verus!
