//! H.264 NAL unit framing: Annex B start codes and AVCC length prefixes.

use vstd::prelude::*;
use vstd::slice::{slice_subrange, slice_to_vec};

verus! {

/// A three-byte start code `00 00 01` begins at `i`.
pub open spec fn start3_at(p: Seq<u8>, i: int) -> bool {
    0 <= i && i + 3 <= p.len() && p[i] == 0 && p[i + 1] == 0 && p[i + 2] == 1
}

/// A four-byte start code `00 00 00 01` begins at `i`.
pub open spec fn start4_at(p: Seq<u8>, i: int) -> bool {
    0 <= i && i + 4 <= p.len() && p[i] == 0 && p[i + 1] == 0 && p[i + 2] == 0 && p[i + 3] == 1
}

/// Some Annex B start code begins at `i`.
pub open spec fn start_code_at(p: Seq<u8>, i: int) -> bool {
    start3_at(p, i) || start4_at(p, i)
}

/// Length of the start code at `i`; the three-byte form is tried first.
pub open spec fn start_code_len(p: Seq<u8>, i: int) -> int {
    if start3_at(p, i) {
        3
    } else {
        4
    }
}

/// The first position at or after `i` where a start code begins, or the
/// length of `p` when there is none.
pub open spec fn next_start_code(p: Seq<u8>, i: int) -> int
    decreases p.len() - i,
{
    if i >= p.len() {
        p.len() as int
    } else if start_code_at(p, i) {
        i
    } else {
        next_start_code(p, i + 1)
    }
}

pub proof fn lemma_next_start_code(p: Seq<u8>, i: int)
    requires
        0 <= i <= p.len(),
    ensures
        i <= next_start_code(p, i) <= p.len(),
        next_start_code(p, i) < p.len() ==> start_code_at(p, next_start_code(p, i)),
        forall|k: int| i <= k < next_start_code(p, i) ==> !start_code_at(p, k),
    decreases p.len() - i,
{
    if i < p.len() && !start_code_at(p, i) {
        lemma_next_start_code(p, i + 1);
    }
}

/// Whether the payload begins with an Annex B start code.
pub fn is_annexb(payload: &[u8]) -> (r: bool)
    ensures
        r == start_code_at(payload@, 0),
{
    let n = payload.len();
    (n >= 3 && payload[0] == 0 && payload[1] == 0 && payload[2] == 1) || (n >= 4 && payload[0]
        == 0 && payload[1] == 0 && payload[2] == 0 && payload[3] == 1)
}

/// Finds the first start code at or after `from`.
fn find_start_code(payload: &[u8], from: usize) -> (r: usize)
    requires
        from <= payload@.len(),
    ensures
        r as int == next_start_code(payload@, from as int),
        from <= r <= payload@.len(),
        r < payload@.len() ==> start_code_at(payload@, r as int),
{
    let n = payload.len();
    let mut scan = from;
    proof {
        lemma_next_start_code(payload@, from as int);
    }
    while scan < n
        invariant
            n == payload@.len(),
            from <= scan <= n,
            next_start_code(payload@, scan as int) == next_start_code(payload@, from as int),
        decreases n - scan,
    {
        let rest = n - scan;
        if (rest >= 3 && payload[scan] == 0 && payload[scan + 1] == 0 && payload[scan + 2] == 1)
            || (rest >= 4 && payload[scan] == 0 && payload[scan + 1] == 0 && payload[scan + 2]
            == 0 && payload[scan + 3] == 1) {
            return scan;
        }
        scan = scan + 1;
    }
    scan
}

/// Length of the start code that `find_start_code` found at `at`.
fn start_code_len_at(payload: &[u8], at: usize) -> (r: usize)
    requires
        start_code_at(payload@, at as int),
    ensures
        r as int == start_code_len(payload@, at as int),
        r == 3 || r == 4,
{
    if payload.len() - at >= 3 && payload[at] == 0 && payload[at + 1] == 0 && payload[at + 2]
        == 1 {
        3
    } else {
        4
    }
}


/// The NAL units of an Annex B stream, scanning for start codes from `i`:
/// each unit runs from just after a start code to the next start code (or
/// the end of the stream); empty units are skipped.
pub open spec fn annexb_units_from(p: Seq<u8>, i: int) -> Seq<Seq<u8>>
    decreases p.len() - i,
{
    if i < 0 || i > p.len() {
        seq![]
    } else {
        let s = next_start_code(p, i);
        if s >= p.len() {
            seq![]
        } else {
            let b = s + start_code_len(p, s);
            if b >= p.len() {
                seq![]
            } else {
                let e = next_start_code(p, b);
                proof {
                    lemma_next_start_code(p, i);
                    lemma_next_start_code(p, b);
                }
                if e > b {
                    seq![p.subrange(b, e)] + annexb_units_from(p, e)
                } else {
                    annexb_units_from(p, e)
                }
            }
        }
    }
}

/// The NAL units of a whole Annex B stream.
pub open spec fn annexb_units(p: Seq<u8>) -> Seq<Seq<u8>> {
    annexb_units_from(p, 0)
}

/// The NAL type: the low five bits of the unit's first byte.
pub open spec fn nal_type(unit: Seq<u8>) -> u8 {
    unit[0] & 0x1f
}

/// The Annex B stream that frames each unit with a four-byte start code.
pub open spec fn annexb_join(units: Seq<Seq<u8>>) -> Seq<u8>
    decreases units.len(),
{
    if units.len() == 0 {
        seq![]
    } else {
        annexb_join(units.drop_last()) + seq![0u8, 0u8, 0u8, 1u8] + units.last()
    }
}

/// Result of `split_annexb_nals`: the units, when there is at least one.
pub open spec fn spec_split_annexb_nals(p: Seq<u8>) -> Option<Seq<Seq<u8>>> {
    if annexb_units(p).len() > 0 {
        Some(annexb_units(p))
    } else {
        None
    }
}

proof fn lemma_units_step(p: Seq<u8>, i: int)
    requires
        0 <= i <= p.len(),
    ensures
        ({
            let s = next_start_code(p, i);
            let b = s + start_code_len(p, s);
            let e = next_start_code(p, b);
            &&& s >= p.len() ==> annexb_units_from(p, i) == Seq::<Seq<u8>>::empty()
            &&& s < p.len() && b >= p.len() ==> annexb_units_from(p, i) == Seq::<
                Seq<u8>,
            >::empty()
            &&& s < p.len() && b < p.len() && e > b ==> annexb_units_from(p, i) == seq![
                p.subrange(b, e),
            ] + annexb_units_from(p, e)
            &&& s < p.len() && b < p.len() && e <= b ==> annexb_units_from(p, i)
                == annexb_units_from(p, e)
        }),
{
}

/// Splits an Annex B stream into its NAL units.
pub fn split_annexb_nals(payload: &[u8]) -> (r: Option<Vec<Vec<u8>>>)
    ensures
        r.deep_view() == spec_split_annexb_nals(payload@),
{
    let n = payload.len();
    let mut units: Vec<Vec<u8>> = Vec::new();
    let mut index: usize = 0;
    while index < n
        invariant
            n == payload@.len(),
            index <= n,
            annexb_units(payload@) == units.deep_view() + annexb_units_from(payload@, index as int),
        ensures
            index == n,
            annexb_units(payload@) == units.deep_view() + annexb_units_from(payload@, index as int),
        decreases n - index,
    {
        let ghost before = units.deep_view();
        proof {
            lemma_units_step(payload@, index as int);
        }
        let s = find_start_code(payload, index);
        if s >= n {
            index = n;
            proof {
                assert(annexb_units_from(payload@, n as int) == Seq::<Seq<u8>>::empty());
                assert(units.deep_view() + Seq::<Seq<u8>>::empty() =~= units.deep_view());
            }
            break;
        }
        let b = s + start_code_len_at(payload, s);
        if b >= n {
            index = n;
            proof {
                assert(units.deep_view() + Seq::<Seq<u8>>::empty() =~= units.deep_view());
            }
            break;
        }
        let e = find_start_code(payload, b);
        if e > b {
            let unit = slice_to_vec(slice_subrange(payload, b, e));
            assert(unit.deep_view() =~= unit@);
            units.push(unit);
            proof {
                assert(units.deep_view() =~= before.push(payload@.subrange(b as int, e as int)));
                assert(before + (seq![payload@.subrange(b as int, e as int)]
                    + annexb_units_from(payload@, e as int)) =~= units.deep_view()
                    + annexb_units_from(payload@, e as int));
            }
        }
        index = e;
    }
    proof {
        assert(annexb_units_from(payload@, n as int) == Seq::<Seq<u8>>::empty()) by {
            lemma_units_step(payload@, n as int);
        }
        assert(units.deep_view() + Seq::<Seq<u8>>::empty() =~= units.deep_view());
    }
    assert(units.deep_view().len() == units.len());
    assert(annexb_units(payload@) == units.deep_view());
    if units.len() > 0 {
        Some(units)
    } else {
        None
    }
}


/// Whether some unit has NAL type `a` or `b`.
pub open spec fn has_unit_type(units: Seq<Seq<u8>>, a: u8, b: u8) -> bool {
    exists|k: int| 0 <= k < units.len() && (nal_type(#[trigger] units[k]) == a || nal_type(units[k]) == b)
}

/// Sequence parameter set (7) or picture parameter set (8).
pub open spec fn is_parameter_set(unit: Seq<u8>) -> bool {
    nal_type(unit) == 7 || nal_type(unit) == 8
}

/// The units that are parameter sets, in stream order.
pub open spec fn parameter_sets_of(units: Seq<Seq<u8>>) -> Seq<Seq<u8>>
    decreases units.len(),
{
    if units.len() == 0 {
        seq![]
    } else if is_parameter_set(units.last()) {
        parameter_sets_of(units.drop_last()).push(units.last())
    } else {
        parameter_sets_of(units.drop_last())
    }
}

/// Whether some Annex B unit has NAL type `a` or `b`.
fn annexb_has_unit_type(payload: &[u8], a: u8, b: u8) -> (r: bool)
    requires
        a != 0,
        b != 0,
    ensures
        r == has_unit_type(annexb_units(payload@), a, b),
{
    let n = payload.len();
    let ghost mut seen: Seq<Seq<u8>> = seq![];
    let mut index: usize = 0;
    while index < n
        invariant
            n == payload@.len(),
            index <= n,
            annexb_units(payload@) == seen + annexb_units_from(payload@, index as int),
            !has_unit_type(seen, a, b),
            a != 0,
            b != 0,
        ensures
            annexb_units(payload@) == seen,
            !has_unit_type(seen, a, b),
        decreases n - index,
    {
        proof {
            lemma_units_step(payload@, index as int);
        }
        let s = find_start_code(payload, index);
        if s >= n {
            proof {
                assert(seen + Seq::<Seq<u8>>::empty() =~= seen);
            }
            break;
        }
        let start = s + start_code_len_at(payload, s);
        if start >= n {
            proof {
                assert(seen + Seq::<Seq<u8>>::empty() =~= seen);
            }
            break;
        }
        let t = payload[start] & 0x1f;
        let e = find_start_code(payload, start);
        if t == a || t == b {
            proof {
                if e == start {
                    assert(payload@[start as int] == 0);
                    assert(forall|x: u8| x == 0 ==> #[trigger] (x & 0x1f) == 0) by (bit_vector);
                }
                let u = payload@.subrange(start as int, e as int);
                let all = annexb_units(payload@);
                assert(all[seen.len() as int] == u);
                assert(nal_type(all[seen.len() as int]) == t);
            }
            return true;
        }
        proof {
            if e > start {
                let u = payload@.subrange(start as int, e as int);
                let seen2 = seen.push(u);
                assert(nal_type(u) == t);
                assert forall|k: int| 0 <= k < seen2.len() implies !(nal_type(#[trigger] seen2[k]) == a
                    || nal_type(seen2[k]) == b) by {
                    if k < seen.len() {
                        assert(seen2[k] == seen[k]);
                    }
                }
                assert(seen + (seq![u] + annexb_units_from(payload@, e as int)) =~= seen2
                    + annexb_units_from(payload@, e as int));
                seen = seen2;
            }
        }
        index = e;
    }
    proof {
        if index == n {
            lemma_units_step(payload@, n as int);
            assert(seen + Seq::<Seq<u8>>::empty() =~= seen);
        }
    }
    false
}

/// Whether the Annex B stream holds an IDR slice (NAL type 5).
pub fn annexb_contains_idr(payload: &[u8]) -> (r: bool)
    ensures
        r == has_unit_type(annexb_units(payload@), 5, 5),
{
    annexb_has_unit_type(payload, 5, 5)
}

/// Whether the Annex B stream holds an SPS (7) or a PPS (8).
pub fn annexb_contains_sps_or_pps(payload: &[u8]) -> (r: bool)
    ensures
        r == has_unit_type(annexb_units(payload@), 7, 8),
{
    annexb_has_unit_type(payload, 7, 8)
}


/// Result of `extract_annexb_parameter_sets`: the SPS and PPS units with the
/// four-byte length size that goes with them, when there is at least one.
pub open spec fn spec_extract_annexb_parameter_sets(p: Seq<u8>) -> Option<(Seq<Seq<u8>>, usize)> {
    let sets = parameter_sets_of(annexb_units(p));
    if sets.len() > 0 {
        Some((sets, 4usize))
    } else {
        None
    }
}

/// Collects the SPS and PPS units of an Annex B stream.
pub fn extract_annexb_parameter_sets(payload: &[u8]) -> (r: Option<(Vec<Vec<u8>>, usize)>)
    ensures
        r.deep_view() == spec_extract_annexb_parameter_sets(payload@),
{
    let n = payload.len();
    let ghost mut seen: Seq<Seq<u8>> = seq![];
    let mut sets: Vec<Vec<u8>> = Vec::new();
    let mut index: usize = 0;
    while index < n
        invariant
            n == payload@.len(),
            index <= n,
            annexb_units(payload@) == seen + annexb_units_from(payload@, index as int),
            sets.deep_view() == parameter_sets_of(seen),
        ensures
            annexb_units(payload@) == seen,
            sets.deep_view() == parameter_sets_of(seen),
        decreases n - index,
    {
        proof {
            lemma_units_step(payload@, index as int);
        }
        let s = find_start_code(payload, index);
        if s >= n {
            proof {
                assert(seen + Seq::<Seq<u8>>::empty() =~= seen);
            }
            break;
        }
        let start = s + start_code_len_at(payload, s);
        if start >= n {
            proof {
                assert(seen + Seq::<Seq<u8>>::empty() =~= seen);
            }
            break;
        }
        let e = find_start_code(payload, start);
        if e > start {
            let ghost u = payload@.subrange(start as int, e as int);
            let t = payload[start] & 0x1f;
            if t == 7 || t == 8 {
                let unit = slice_to_vec(slice_subrange(payload, start, e));
                assert(unit.deep_view() =~= unit@);
                let ghost before = sets.deep_view();
                sets.push(unit);
                assert(sets.deep_view() =~= before.push(u));
            }
            proof {
                let seen2 = seen.push(u);
                assert(seen2.drop_last() =~= seen);
                assert(seen + (seq![u] + annexb_units_from(payload@, e as int)) =~= seen2
                    + annexb_units_from(payload@, e as int));
                seen = seen2;
            }
        }
        index = e;
    }
    proof {
        if index == n {
            lemma_units_step(payload@, n as int);
            assert(seen + Seq::<Seq<u8>>::empty() =~= seen);
        }
    }
    assert(sets.deep_view().len() == sets.len());
    if sets.len() == 0 {
        None
    } else {
        Some((sets, 4))
    }
}

/// Big-endian value of a byte string.
pub open spec fn be_value(b: Seq<u8>) -> nat
    decreases b.len(),
{
    if b.len() == 0 {
        0
    } else {
        be_value(b.drop_last()) * 256 + b.last() as nat
    }
}

/// `256` to the power `n`.
pub open spec fn pow256(n: nat) -> nat
    decreases n,
{
    if n == 0 {
        1
    } else {
        256 * pow256((n - 1) as nat)
    }
}

/// `x` as `n` big-endian bytes (keeping the low `n` bytes).
pub open spec fn be_bytes(x: nat, n: nat) -> Seq<u8>
    decreases n,
{
    if n == 0 {
        seq![]
    } else {
        be_bytes(x / 256, (n - 1) as nat).push((x % 256) as u8)
    }
}

/// The AVCC units from offset `i`: each is preceded by its length in `n`
/// big-endian bytes. `None` when a length is zero, a length field is cut off
/// or a unit runs past the end.
pub open spec fn avcc_units_from(p: Seq<u8>, n: nat, i: int) -> Option<Seq<Seq<u8>>>
    decreases p.len() - i,
{
    if i < 0 || i >= p.len() {
        Some(seq![])
    } else if n == 0 || i + n > p.len() {
        None
    } else {
        let l = be_value(p.subrange(i, i + n));
        if l == 0 || i + n + l > p.len() {
            None
        } else {
            match avcc_units_from(p, n, i + n + l) {
                Some(rest) => Some(seq![p.subrange(i + n, i + n + l)] + rest),
                None => None,
            }
        }
    }
}

/// The AVCC units of a whole payload.
pub open spec fn avcc_units(p: Seq<u8>, n: nat) -> Option<Seq<Seq<u8>>> {
    avcc_units_from(p, n, 0)
}

/// Result of `split_avcc_nals`.
pub open spec fn spec_split_avcc_nals(p: Seq<u8>, n: nat) -> Option<Seq<Seq<u8>>> {
    if n == 0 || n > 4 {
        None
    } else {
        match avcc_units(p, n) {
            Some(units) => if units.len() > 0 {
                Some(units)
            } else {
                None
            },
            None => None,
        }
    }
}

/// Result of `avcc_to_annexb`.
pub open spec fn spec_avcc_to_annexb(p: Seq<u8>, n: nat) -> Option<Seq<u8>> {
    match spec_split_avcc_nals(p, n) {
        Some(units) => Some(annexb_join(units)),
        None => None,
    }
}

/// Prepends a known prefix of units to a parse result.
pub open spec fn prepend_units(done: Seq<Seq<u8>>, r: Option<Seq<Seq<u8>>>) -> Option<Seq<Seq<u8>>> {
    match r {
        Some(rest) => Some(done + rest),
        None => None,
    }
}

pub proof fn lemma_be_value_bound_pub(b: Seq<u8>)
    ensures
        be_value(b) < pow256(b.len()),
    decreases b.len(),
{
    if b.len() > 0 {
        lemma_be_value_bound_pub(b.drop_last());
    }
}

proof fn lemma_pow256_small()
    ensures
        pow256(0) == 1,
        pow256(1) == 256,
        pow256(2) == 65536,
        pow256(3) == 16777216,
        pow256(4) == 4294967296,
{
    reveal_with_fuel(pow256, 5);
}

/// Reads the `n`-byte big-endian length at `offset`.
fn read_be_len(payload: &[u8], offset: usize, n: usize) -> (r: usize)
    requires
        1 <= n <= 4,
        offset + n <= payload@.len(),
    ensures
        r as nat == be_value(payload@.subrange(offset as int, offset + n)),
{
    let mut value: usize = 0;
    let mut j: usize = 0;
    let len = payload.len();
    proof {
        lemma_pow256_small();
        assert(payload@.subrange(offset as int, offset as int) =~= Seq::<u8>::empty());
    }
    while j < n
        invariant
            1 <= n <= 4,
            offset + n <= payload@.len(),
            len == payload@.len(),
            j <= n,
            value as nat == be_value(payload@.subrange(offset as int, offset + j)),
            value < pow256(j as nat),
        decreases n - j,
    {
        proof {
            lemma_pow256_small();
            let sub = payload@.subrange(offset as int, offset + j + 1);
            assert(sub.drop_last() =~= payload@.subrange(offset as int, offset + j));
            assert(pow256((j + 1) as nat) == 256 * pow256(j as nat));
            assert(pow256(j as nat) <= 16777216) by {
                if j == 0 {} else if j == 1 {} else if j == 2 {} else {}
            }
        }
        value = value * 256 + payload[offset + j] as usize;
        j = j + 1;
    }
    value
}

proof fn lemma_avcc_step(p: Seq<u8>, n: nat, i: int)
    requires
        0 <= i < p.len(),
        n >= 1,
        i + n <= p.len(),
        be_value(p.subrange(i, i + n)) != 0,
        i + n + be_value(p.subrange(i, i + n)) <= p.len(),
    ensures
        ({
            let l = be_value(p.subrange(i, i + n));
            avcc_units_from(p, n, i) == prepend_units(
                seq![p.subrange(i + n, i + n + l)],
                avcc_units_from(p, n, i + n + l),
            )
        }),
{
}

/// Splits an AVCC payload whose units carry `nal_length_size`-byte lengths.
pub fn split_avcc_nals(payload: &[u8], nal_length_size: usize) -> (r: Option<Vec<Vec<u8>>>)
    ensures
        r.deep_view() == spec_split_avcc_nals(payload@, nal_length_size as nat),
{
    if nal_length_size == 0 || nal_length_size > 4 {
        return None;
    }
    let n = payload.len();
    let mut units: Vec<Vec<u8>> = Vec::new();
    let mut index: usize = 0;
    while index < n
        invariant
            n == payload@.len(),
            1 <= nal_length_size <= 4,
            index <= n,
            avcc_units(payload@, nal_length_size as nat) == prepend_units(
                units.deep_view(),
                avcc_units_from(payload@, nal_length_size as nat, index as int),
            ),
        decreases n - index,
    {
        if nal_length_size > n - index {
            return None;
        }
        let nal_len = read_be_len(payload, index, nal_length_size);
        index = index + nal_length_size;
        if nal_len == 0 || nal_len > n - index {
            return None;
        }
        let ghost before = units.deep_view();
        let unit = slice_to_vec(slice_subrange(payload, index, index + nal_len));
        assert(unit.deep_view() =~= unit@);
        units.push(unit);
        proof {
            let i0 = index - nal_length_size;
            lemma_avcc_step(payload@, nal_length_size as nat, i0);
            assert(units.deep_view() =~= before.push(payload@.subrange(index as int, index + nal_len)));
            match avcc_units_from(payload@, nal_length_size as nat, index + nal_len) {
                Some(rest) => {
                    assert(before + (seq![payload@.subrange(index as int, index + nal_len)] + rest)
                        =~= units.deep_view() + rest);
                },
                None => {},
            }
        }
        index = index + nal_len;
    }
    proof {
        assert(units.deep_view() + Seq::<Seq<u8>>::empty() =~= units.deep_view());
    }
    assert(units.deep_view().len() == units.len());
    if units.len() == 0 {
        None
    } else {
        Some(units)
    }
}


/// Every unit is non-empty.
pub open spec fn all_nonempty(units: Seq<Seq<u8>>) -> bool {
    forall|k: int| 0 <= k < units.len() ==> #[trigger] units[k].len() > 0
}

pub proof fn lemma_annexb_units_nonempty(p: Seq<u8>, i: int)
    ensures
        all_nonempty(annexb_units_from(p, i)),
    decreases p.len() - i,
{
    if 0 <= i <= p.len() {
        lemma_units_step(p, i);
        lemma_next_start_code(p, i);
        let s = next_start_code(p, i);
        if s < p.len() {
            let b = s + start_code_len(p, s);
            if b < p.len() {
                lemma_next_start_code(p, b);
                let e = next_start_code(p, b);
                lemma_annexb_units_nonempty(p, e);
                let rest = annexb_units_from(p, e);
                if e > b {
                    let all = seq![p.subrange(b, e)] + rest;
                    assert forall|k: int| 0 <= k < all.len() implies #[trigger] all[k].len() > 0 by {
                        if k > 0 {
                            assert(all[k] == rest[k - 1]);
                        }
                    }
                }
            }
        }
    }
}

proof fn lemma_avcc_units_nonempty(p: Seq<u8>, n: nat, i: int)
    ensures
        avcc_units_from(p, n, i) matches Some(units) ==> all_nonempty(units),
    decreases p.len() - i,
{
    if 0 <= i < p.len() && n != 0 && i + n <= p.len() {
        let l = be_value(p.subrange(i, i + n));
        if l != 0 && i + n + l <= p.len() {
            lemma_avcc_units_nonempty(p, n, i + n + l);
            match avcc_units_from(p, n, i + n + l) {
                Some(rest) => {
                    let all = seq![p.subrange(i + n, i + n + l)] + rest;
                    assert forall|k: int| 0 <= k < all.len() implies #[trigger] all[k].len() > 0 by {
                        if k > 0 {
                            assert(all[k] == rest[k - 1]);
                        }
                    }
                },
                None => {},
            }
        }
    }
}

/// Appends `src[from..to]` to `out`.
fn append_range(out: &mut Vec<u8>, src: &[u8], from: usize, to: usize)
    requires
        from <= to <= src@.len(),
    ensures
        final(out)@ == old(out)@ + src@.subrange(from as int, to as int),
{
    let mut k = from;
    while k < to
        invariant
            from <= k <= to,
            to <= src@.len(),
            out@ == old(out)@ + src@.subrange(from as int, k as int),
        decreases to - k,
    {
        out.push(src[k]);
        k = k + 1;
        assert(out@ =~= old(out)@ + src@.subrange(from as int, k as int));
    }
}

/// Appends a four-byte Annex B start code.
fn append_start_code(out: &mut Vec<u8>)
    ensures
        final(out)@ == old(out)@ + seq![0u8, 0u8, 0u8, 1u8],
{
    out.push(0);
    out.push(0);
    out.push(0);
    out.push(1);
    assert(out@ =~= old(out)@ + seq![0u8, 0u8, 0u8, 1u8]);
}

/// Converts an AVCC payload with `nal_length_size`-byte lengths to Annex B.
pub fn avcc_to_annexb(payload: &[u8], nal_length_size: usize) -> (r: Option<Vec<u8>>)
    ensures
        r.deep_view() == spec_avcc_to_annexb(payload@, nal_length_size as nat),
{
    if nal_length_size == 0 || nal_length_size > 4 {
        return None;
    }
    let n = payload.len();
    let mut converted: Vec<u8> = Vec::new();
    let ghost mut done: Seq<Seq<u8>> = seq![];
    let mut offset: usize = 0;
    while offset < n
        invariant
            n == payload@.len(),
            1 <= nal_length_size <= 4,
            offset <= n,
            avcc_units(payload@, nal_length_size as nat) == prepend_units(
                done,
                avcc_units_from(payload@, nal_length_size as nat, offset as int),
            ),
            converted@ == annexb_join(done),
        decreases n - offset,
    {
        if nal_length_size > n - offset {
            return None;
        }
        let nal_len = read_be_len(payload, offset, nal_length_size);
        offset = offset + nal_length_size;
        if nal_len == 0 || nal_len > n - offset {
            return None;
        }
        append_start_code(&mut converted);
        append_range(&mut converted, payload, offset, offset + nal_len);
        proof {
            let i0 = offset - nal_length_size;
            let u = payload@.subrange(offset as int, offset + nal_len);
            lemma_avcc_step(payload@, nal_length_size as nat, i0);
            let done2 = done.push(u);
            assert(done2.drop_last() =~= done);
            match avcc_units_from(payload@, nal_length_size as nat, offset + nal_len) {
                Some(rest) => {
                    assert(done + (seq![u] + rest) =~= done2 + rest);
                },
                None => {},
            }
            done = done2;
        }
        offset = offset + nal_len;
    }
    proof {
        assert(done + Seq::<Seq<u8>>::empty() =~= done);
        if done.len() > 0 {
            assert(converted@.len() > 0);
        } else {
            assert(done =~= Seq::<Seq<u8>>::empty());
        }
    }
    if converted.len() == 0 {
        None
    } else {
        Some(converted)
    }
}

/// Result of `best_effort_avcc_to_annexb`: the first of the 4-, 2- and
/// 1-byte length sizes under which the payload converts.
pub open spec fn spec_best_effort_avcc_to_annexb(p: Seq<u8>) -> Option<Seq<u8>> {
    if spec_avcc_to_annexb(p, 4) is Some {
        spec_avcc_to_annexb(p, 4)
    } else if spec_avcc_to_annexb(p, 2) is Some {
        spec_avcc_to_annexb(p, 2)
    } else {
        spec_avcc_to_annexb(p, 1)
    }
}

/// Converts an AVCC payload of unknown length size to Annex B.
pub fn best_effort_avcc_to_annexb(payload: &[u8]) -> (r: Option<Vec<u8>>)
    ensures
        r.deep_view() == spec_best_effort_avcc_to_annexb(payload@),
{
    let four = avcc_to_annexb(payload, 4);
    if four.is_some() {
        return four;
    }
    let two = avcc_to_annexb(payload, 2);
    if two.is_some() {
        return two;
    }
    avcc_to_annexb(payload, 1)
}

/// Result of `h264_nal_units`.
pub open spec fn spec_h264_nal_units(p: Seq<u8>, nal_length_size: Option<usize>) -> Option<Seq<Seq<u8>>> {
    if p.len() == 0 {
        None
    } else if start_code_at(p, 0) {
        spec_split_annexb_nals(p)
    } else if nal_length_size is Some && spec_split_avcc_nals(p, nal_length_size->0 as nat) is Some {
        spec_split_avcc_nals(p, nal_length_size->0 as nat)
    } else if spec_split_avcc_nals(p, 4) is Some {
        spec_split_avcc_nals(p, 4)
    } else if spec_split_avcc_nals(p, 2) is Some {
        spec_split_avcc_nals(p, 2)
    } else {
        spec_split_avcc_nals(p, 1)
    }
}

/// Splits a payload into NAL units: Annex B when it starts with a start code,
/// otherwise AVCC with the given length size, then 4, 2 and 1 bytes.
pub fn h264_nal_units(payload: &[u8], nal_length_size: Option<usize>) -> (r: Option<Vec<Vec<u8>>>)
    ensures
        r.deep_view() == spec_h264_nal_units(payload@, nal_length_size),
{
    if payload.len() == 0 {
        return None;
    }
    if is_annexb(payload) {
        return split_annexb_nals(payload);
    }
    if let Some(size) = nal_length_size {
        let units = split_avcc_nals(payload, size);
        if units.is_some() {
            return units;
        }
    }
    let four = split_avcc_nals(payload, 4);
    if four.is_some() {
        return four;
    }
    let two = split_avcc_nals(payload, 2);
    if two.is_some() {
        return two;
    }
    split_avcc_nals(payload, 1)
}

/// The NAL types of the units, in order.
pub open spec fn nal_types_of(units: Seq<Seq<u8>>) -> Seq<u8> {
    units.map_values(|u: Seq<u8>| nal_type(u))
}

/// Result of `h264_nal_types`: the type of each unit, or nothing when the
/// payload does not split.
pub open spec fn spec_h264_nal_types(p: Seq<u8>, nal_length_size: Option<usize>) -> Seq<u8> {
    match spec_h264_nal_units(p, nal_length_size) {
        Some(units) => nal_types_of(units),
        None => seq![],
    }
}

proof fn lemma_h264_units_nonempty(p: Seq<u8>, nal_length_size: Option<usize>)
    ensures
        spec_h264_nal_units(p, nal_length_size) matches Some(units) ==> all_nonempty(units),
{
    lemma_annexb_units_nonempty(p, 0);
    lemma_avcc_units_nonempty(p, 4, 0);
    lemma_avcc_units_nonempty(p, 2, 0);
    lemma_avcc_units_nonempty(p, 1, 0);
    if nal_length_size is Some {
        lemma_avcc_units_nonempty(p, nal_length_size->0 as nat, 0);
    }
}

/// The NAL types of a payload's units.
pub fn h264_nal_types(payload: &[u8], nal_length_size: Option<usize>) -> (r: Vec<u8>)
    ensures
        r@ == spec_h264_nal_types(payload@, nal_length_size),
{
    proof {
        lemma_h264_units_nonempty(payload@, nal_length_size);
    }
    let units = h264_nal_units(payload, nal_length_size);
    let mut types: Vec<u8> = Vec::new();
    match units {
        Some(units) => {
            let ghost all = units.deep_view();
            let mut k: usize = 0;
            while k < units.len()
                invariant
                    all == units.deep_view(),
                    all_nonempty(all),
                    k <= units.len(),
                    types@ == nal_types_of(all.take(k as int)),
                decreases units.len() - k,
            {
                assert(all[k as int] == units[k as int]@);
                assert(all[k as int].len() > 0);
                let t = units[k][0] & 0x1f;
                types.push(t);
                k = k + 1;
                assert(types@ =~= nal_types_of(all.take(k as int)));
            }
            assert(all.take(units.len() as int) =~= all);
        },
        None => {},
    }
    types
}


/// The AVCC payload that prefixes each unit with its length in `n`
/// big-endian bytes.
pub open spec fn avcc_join(units: Seq<Seq<u8>>, n: nat) -> Seq<u8>
    decreases units.len(),
{
    if units.len() == 0 {
        seq![]
    } else {
        avcc_join(units.drop_last(), n) + be_bytes(units.last().len(), n) + units.last()
    }
}

/// Some unit is longer than a 32-bit length can say.
pub open spec fn has_oversized_unit(units: Seq<Seq<u8>>) -> bool {
    exists|k: int| 0 <= k < units.len() && #[trigger] units[k].len() > u32::MAX
}

/// Result of `annexb_to_avcc`: the Annex B units with four-byte lengths.
pub open spec fn spec_annexb_to_avcc(p: Seq<u8>) -> Option<Seq<u8>> {
    let units = annexb_units(p);
    if units.len() == 0 || has_oversized_unit(units) {
        None
    } else {
        Some(avcc_join(units, 4))
    }
}

/// Appends `x` as four big-endian bytes.
fn append_be32(out: &mut Vec<u8>, x: usize)
    requires
        x <= u32::MAX,
    ensures
        final(out)@ == old(out)@ + be_bytes(x as nat, 4),
{
    let b3 = (x % 256) as u8;
    let r1 = x / 256;
    let b2 = (r1 % 256) as u8;
    let r2 = r1 / 256;
    let b1 = (r2 % 256) as u8;
    let r3 = r2 / 256;
    let b0 = (r3 % 256) as u8;
    out.push(b0);
    out.push(b1);
    out.push(b2);
    out.push(b3);
    proof {
        reveal_with_fuel(be_bytes, 5);
        assert(be_bytes(x as nat, 4) =~= seq![b0, b1, b2, b3]);
        assert(final(out)@ =~= old(out)@ + seq![b0, b1, b2, b3]);
    }
}

/// Converts an Annex B stream to AVCC with four-byte lengths.
pub fn annexb_to_avcc(payload: &[u8]) -> (r: Option<Vec<u8>>)
    ensures
        r.deep_view() == spec_annexb_to_avcc(payload@),
{
    let n = payload.len();
    let mut out: Vec<u8> = Vec::new();
    let ghost mut seen: Seq<Seq<u8>> = seq![];
    let mut index: usize = 0;
    while index < n
        invariant
            n == payload@.len(),
            index <= n,
            annexb_units(payload@) == seen + annexb_units_from(payload@, index as int),
            out@ == avcc_join(seen, 4),
            !has_oversized_unit(seen),
        ensures
            annexb_units(payload@) == seen,
            out@ == avcc_join(seen, 4),
            !has_oversized_unit(seen),
        decreases n - index,
    {
        proof {
            lemma_units_step(payload@, index as int);
        }
        let s = find_start_code(payload, index);
        if s >= n {
            proof {
                assert(seen + Seq::<Seq<u8>>::empty() =~= seen);
            }
            break;
        }
        let start = s + start_code_len_at(payload, s);
        if start >= n {
            proof {
                assert(seen + Seq::<Seq<u8>>::empty() =~= seen);
            }
            break;
        }
        let e = find_start_code(payload, start);
        if e > start {
            let ghost u = payload@.subrange(start as int, e as int);
            let size = e - start;
            if size > 0xffff_ffff {
                proof {
                    let all = annexb_units(payload@);
                    assert(all[seen.len() as int] == u);
                    assert(has_oversized_unit(all));
                }
                return None;
            }
            append_be32(&mut out, size);
            append_range(&mut out, payload, start, e);
            proof {
                let seen2 = seen.push(u);
                assert(seen2.drop_last() =~= seen);
                assert(seen + (seq![u] + annexb_units_from(payload@, e as int)) =~= seen2
                    + annexb_units_from(payload@, e as int));
                assert forall|k: int| 0 <= k < seen2.len() implies #[trigger] seen2[k].len()
                    <= u32::MAX by {
                    if k < seen.len() {
                        assert(seen2[k] == seen[k]);
                    }
                }
                seen = seen2;
            }
        }
        index = e;
    }
    proof {
        if index == n {
            lemma_units_step(payload@, n as int);
            assert(seen + Seq::<Seq<u8>>::empty() =~= seen);
        }
        if seen.len() > 0 {
            assert(out@.len() > 0);
        } else {
            assert(seen =~= Seq::<Seq<u8>>::empty());
        }
    }
    if out.len() == 0 {
        None
    } else {
        Some(out)
    }
}

/// Result of `vt_prepare_sample_payload`: a four-byte AVCC sample.
pub open spec fn spec_vt_prepare_sample_payload(p: Seq<u8>) -> Option<Seq<u8>> {
    if p.len() == 0 {
        None
    } else if start_code_at(p, 0) {
        spec_annexb_to_avcc(p)
    } else if spec_avcc_to_annexb(p, 4) is Some {
        Some(p)
    } else if spec_avcc_to_annexb(p, 2) is Some && spec_annexb_to_avcc(
        spec_avcc_to_annexb(p, 2)->0,
    ) is Some {
        spec_annexb_to_avcc(spec_avcc_to_annexb(p, 2)->0)
    } else if spec_avcc_to_annexb(p, 1) is Some && spec_annexb_to_avcc(
        spec_avcc_to_annexb(p, 1)->0,
    ) is Some {
        spec_annexb_to_avcc(spec_avcc_to_annexb(p, 1)->0)
    } else {
        None
    }
}

/// Normalizes a sample to AVCC with four-byte lengths.
pub fn vt_prepare_sample_payload(payload: &[u8]) -> (r: Option<Vec<u8>>)
    ensures
        r.deep_view() == spec_vt_prepare_sample_payload(payload@),
{
    if payload.len() == 0 {
        return None;
    }
    if is_annexb(payload) {
        return annexb_to_avcc(payload);
    }
    if avcc_to_annexb(payload, 4).is_some() {
        let copy = slice_to_vec(payload);
        assert(copy.deep_view() =~= copy@);
        return Some(copy);
    }
    if let Some(annexb) = avcc_to_annexb(payload, 2) {
        assert(annexb.deep_view() =~= annexb@);
        if let Some(avcc4) = annexb_to_avcc(annexb.as_slice()) {
            return Some(avcc4);
        }
    }
    if let Some(annexb) = avcc_to_annexb(payload, 1) {
        assert(annexb.deep_view() =~= annexb@);
        if let Some(avcc4) = annexb_to_avcc(annexb.as_slice()) {
            return Some(avcc4);
        }
    }
    None
}

/// The units that are not empty, in order.
pub open spec fn nonempty_units(units: Seq<Seq<u8>>) -> Seq<Seq<u8>>
    decreases units.len(),
{
    if units.len() == 0 {
        seq![]
    } else if units.last().len() > 0 {
        nonempty_units(units.drop_last()).push(units.last())
    } else {
        nonempty_units(units.drop_last())
    }
}

/// Frames each non-empty parameter set with a start code ahead of `payload`.
pub fn prepend_parameter_sets(parameter_sets: &[Vec<u8>], payload: &[u8]) -> (r: Vec<u8>)
    ensures
        r@ == annexb_join(nonempty_units(parameter_sets.deep_view())) + payload@,
{
    let mut out: Vec<u8> = Vec::new();
    let ghost all = parameter_sets.deep_view();
    let mut k: usize = 0;
    while k < parameter_sets.len()
        invariant
            all == parameter_sets.deep_view(),
            k <= parameter_sets@.len(),
            out@ == annexb_join(nonempty_units(all.take(k as int))),
        decreases parameter_sets@.len() - k,
    {
        let unit = &parameter_sets[k];
        assert(all[k as int] == unit@);
        assert(all.take(k + 1).drop_last() =~= all.take(k as int));
        let ghost prev = nonempty_units(all.take(k as int));
        assert(all.take(k + 1).last() == unit@);
        if unit.len() > 0 {
            append_start_code(&mut out);
            append_range(&mut out, unit.as_slice(), 0, unit.len());
            assert(unit@.subrange(0, unit@.len() as int) =~= unit@);
            assert(nonempty_units(all.take(k + 1)) == prev.push(unit@));
            assert(prev.push(unit@).drop_last() =~= prev);
        } else {
            assert(nonempty_units(all.take(k + 1)) == prev);
        }
        k = k + 1;
    }
    assert(all.take(parameter_sets@.len() as int) =~= all);
    append_range(&mut out, payload, 0, payload.len());
    assert(payload@.subrange(0, payload@.len() as int) =~= payload@);
    out
}


/// The two-byte-length unit of a decoder configuration record at `off`, with
/// the offset just past it.
pub open spec fn record_unit_at(r: Seq<u8>, off: int) -> Option<(Seq<u8>, int)> {
    if off < 0 || off + 2 > r.len() {
        None
    } else {
        let size = r[off] as int * 256 + r[off + 1] as int;
        if size == 0 || off + 2 + size > r.len() {
            None
        } else {
            Some((r.subrange(off + 2, off + 2 + size), off + 2 + size))
        }
    }
}

/// `count` consecutive record units from `off`, with the offset after them.
pub open spec fn record_units(r: Seq<u8>, count: nat, off: int) -> Option<(Seq<Seq<u8>>, int)>
    decreases count,
{
    if count == 0 {
        Some((seq![], off))
    } else {
        match record_unit_at(r, off) {
            None => None,
            Some((u, next)) => match record_units(r, (count - 1) as nat, next) {
                None => None,
                Some((rest, end)) => Some((seq![u] + rest, end)),
            },
        }
    }
}

/// The units of NAL type `t`, in order.
pub open spec fn units_of_type(units: Seq<Seq<u8>>, t: u8) -> Seq<Seq<u8>>
    decreases units.len(),
{
    if units.len() == 0 {
        seq![]
    } else if nal_type(units.last()) == t {
        units_of_type(units.drop_last(), t).push(units.last())
    } else {
        units_of_type(units.drop_last(), t)
    }
}

/// Result of `parse_avcc_record`: the NAL length size, the parameter sets
/// (SPS then PPS), the SPS units and the PPS units.
pub open spec fn spec_parse_avcc_record(r: Seq<u8>) -> Option<(nat, Seq<Seq<u8>>, Seq<Seq<u8>>, Seq<Seq<u8>>)> {
    if r.len() < 7 || r[0] != 1 {
        None
    } else {
        let nal_length_size = ((r[4] & 3) + 1) as nat;
        let sps_count = (r[5] & 0x1f) as nat;
        match record_units(r, sps_count, 6) {
            None => None,
            Some((sps_all, off)) => if off >= r.len() {
                None
            } else {
                match record_units(r, r[off] as nat, off + 1) {
                    None => None,
                    Some((pps_all, _end)) => {
                        let sps = units_of_type(sps_all, 7);
                        let pps = units_of_type(pps_all, 8);
                        Some((nal_length_size, sps + pps, sps, pps))
                    },
                }
            },
        }
    }
}

/// Reads the two-byte-length unit at `offset` of a decoder configuration
/// record.
pub fn parse_avcc_unit(record: &[u8], offset: usize) -> (r: Option<(&[u8], usize)>)
    ensures
        match r {
            Some((unit, next)) => record_unit_at(record@, offset as int) == Some(
                (unit@, next as int),
            ),
            None => record_unit_at(record@, offset as int) is None,
        },
{
    let n = record.len();
    if n < 2 || offset > n - 2 {
        return None;
    }
    let size = record[offset] as usize * 256 + record[offset + 1] as usize;
    let start = offset + 2;
    if size == 0 || size > n - start {
        return None;
    }
    let end = start + size;
    Some((slice_subrange(record, start, end), end))
}

/// Reads `count` record units from `offset`, keeping those of NAL type `t`.
fn parse_record_units(record: &[u8], count: usize, offset: usize, t: u8) -> (r: Option<(Vec<Vec<u8>>, usize)>)
    ensures
        match r {
            Some((kept, end)) => record_units(record@, count as nat, offset as int) matches Some(
                (all, e),
            ) && e == end as int && kept.deep_view() == units_of_type(all, t),
            None => record_units(record@, count as nat, offset as int) is None,
        },
{
    let mut kept: Vec<Vec<u8>> = Vec::new();
    let ghost mut done: Seq<Seq<u8>> = seq![];
    let mut off = offset;
    let mut i: usize = 0;
    while i < count
        invariant
            i <= count,
            record_units(record@, count as nat, offset as int) == match record_units(
                record@,
                (count - i) as nat,
                off as int,
            ) {
                None => None,
                Some((rest, end)) => Some((done + rest, end)),
            },
            kept.deep_view() == units_of_type(done, t),
        decreases count - i,
    {
        match parse_avcc_unit(record, off) {
            None => {
                return None;
            },
            Some((unit, next)) => {
                let ghost u = unit@;
                if unit.len() > 0 && (unit[0] & 0x1f) == t {
                    let v = slice_to_vec(unit);
                    assert(v.deep_view() =~= v@);
                    let ghost before = kept.deep_view();
                    kept.push(v);
                    assert(kept.deep_view() =~= before.push(u));
                }
                proof {
                    let done2 = done.push(u);
                    assert(done2.drop_last() =~= done);
                    assert(done2.last() == u);
                    match record_units(record@, (count - i - 1) as nat, next as int) {
                        Some((rest, end)) => {
                            assert(done + (seq![u] + rest) =~= done2 + rest);
                        },
                        None => {},
                    }
                    done = done2;
                }
                off = next;
            },
        }
        i = i + 1;
    }
    proof {
        assert(done + Seq::<Seq<u8>>::empty() =~= done);
    }
    Some((kept, off))
}

/// Concatenates two unit lists.
pub(crate) fn concat_units(a: &Vec<Vec<u8>>, b: &Vec<Vec<u8>>) -> (r: Vec<Vec<u8>>)
    ensures
        r.deep_view() == a.deep_view() + b.deep_view(),
{
    let mut out: Vec<Vec<u8>> = Vec::new();
    let mut k: usize = 0;
    while k < a.len()
        invariant
            k <= a@.len(),
            out.deep_view() == a.deep_view().take(k as int),
        decreases a@.len() - k,
    {
        let v = slice_to_vec(a[k].as_slice());
        assert(v.deep_view() =~= v@);
        assert(a[k as int].deep_view() =~= a[k as int]@);
        let ghost before = out.deep_view();
        out.push(v);
        assert(out.deep_view() =~= before.push(v@));
        assert(a.deep_view()[k as int] == v@);
        assert(a.deep_view().take(k + 1) =~= a.deep_view().take(k as int).push(v@));
        k = k + 1;
    }
    let mut j: usize = 0;
    while j < b.len()
        invariant
            j <= b@.len(),
            out.deep_view() == a.deep_view() + b.deep_view().take(j as int),
        decreases b@.len() - j,
    {
        let v = slice_to_vec(b[j].as_slice());
        assert(v.deep_view() =~= v@);
        assert(b[j as int].deep_view() =~= b[j as int]@);
        let ghost before = out.deep_view();
        out.push(v);
        assert(out.deep_view() =~= before.push(v@));
        assert(b.deep_view()[j as int] == v@);
        assert(b.deep_view().take(j + 1) =~= b.deep_view().take(j as int).push(v@));
        assert(a.deep_view() + b.deep_view().take(j + 1) =~= (a.deep_view() + b.deep_view().take(j as int)).push(v@));
        j = j + 1;
    }
    assert(b.deep_view().take(b@.len() as int) =~= b.deep_view());
    assert(a.deep_view().take(a@.len() as int) =~= a.deep_view());
    out
}

/// Parses an AVC decoder configuration record into its NAL length size and
/// its SPS and PPS units.
pub fn parse_avcc_record(record: &[u8]) -> (r: Option<(usize, Vec<Vec<u8>>, Vec<Vec<u8>>, Vec<Vec<u8>>)>)
    ensures
        match r {
            Some((size, sets, sps, pps)) => spec_parse_avcc_record(record@) == Some(
                (size as nat, sets.deep_view(), sps.deep_view(), pps.deep_view()),
            ),
            None => spec_parse_avcc_record(record@) is None,
        },
{
    if record.len() < 7 || record[0] != 1 {
        return None;
    }
    let b4 = record[4];
    proof {
        assert(b4 & 3 <= 3) by (bit_vector);
    }
    let nal_length_size = ((b4 & 0x03) + 1) as usize;
    if nal_length_size == 0 || nal_length_size > 4 {
        return None;
    }
    let sps_count = (record[5] & 0x1f) as usize;
    let (sps, offset) = match parse_record_units(record, sps_count, 6, 7) {
        Some(parsed) => parsed,
        None => {
            return None;
        },
    };
    if offset >= record.len() {
        return None;
    }
    let pps_count = record[offset] as usize;
    let (pps, _end) = match parse_record_units(record, pps_count, offset + 1, 8) {
        Some(parsed) => parsed,
        None => {
            return None;
        },
    };
    let sets = concat_units(&sps, &pps);
    Some((nal_length_size, sets, sps, pps))
}


pub proof fn lemma_annexb_units_nonempty_pub(p: Seq<u8>)
    ensures
        all_nonempty(annexb_units(p)),
{
    lemma_annexb_units_nonempty(p, 0);
}

} // verus!
