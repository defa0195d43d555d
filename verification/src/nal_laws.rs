//! Laws of the NAL framing: converting between Annex B and AVCC keeps the
//! NAL units, and the conversions undo each other.

use vstd::prelude::*;

use crate::h264::{spec_annexb_for_decode, spec_normalize_for_decode};
use crate::nal::{
    has_unit_type, nonempty_units, spec_best_effort_avcc_to_annexb,
    all_nonempty, annexb_join, annexb_units, annexb_units_from, avcc_join, avcc_units, avcc_units_from,
    be_bytes, be_value, has_oversized_unit, lemma_next_start_code, lemma_annexb_units_nonempty_pub, lemma_be_value_bound_pub,
    next_start_code, pow256, spec_annexb_to_avcc, spec_avcc_to_annexb, spec_split_annexb_nals,
    spec_split_avcc_nals, spec_vt_prepare_sample_payload, start3_at, start4_at, start_code_at,
    start_code_len,
};

verus! {

/// No three-byte start code `00 00 01` occurs inside the unit. H.264
/// emulation prevention guarantees this of every coded NAL unit.
pub open spec fn free_of_start_codes(u: Seq<u8>) -> bool {
    forall|i: int| 0 <= i && i + 2 < u.len() ==> !(#[trigger] u[i] == 0 && u[i + 1] == 0 && u[i + 2] == 1)
}

/// Every unit is non-empty and free of start codes.
pub open spec fn well_formed_units(units: Seq<Seq<u8>>) -> bool {
    forall|k: int| 0 <= k < units.len() ==> #[trigger] units[k].len() > 0 && free_of_start_codes(units[k])
}

// ---------------------------------------------------------------------
// Shifting: the parsers look only forward from their start offset.

proof fn lemma_next_start_code_shift(a: Seq<u8>, b: Seq<u8>, j: int)
    requires
        0 <= j <= b.len(),
    ensures
        next_start_code(a + b, a.len() + j) == a.len() + next_start_code(b, j),
    decreases b.len() - j,
{
    let p = a + b;
    assert(start_code_at(p, a.len() + j) == start_code_at(b, j)) by {
        if j + 3 <= b.len() {
            assert(p[a.len() + j] == b[j]);
            assert(p[a.len() + j + 1] == b[j + 1]);
            assert(p[a.len() + j + 2] == b[j + 2]);
        }
        if j + 4 <= b.len() {
            assert(p[a.len() + j + 3] == b[j + 3]);
        }
    }
    if j < b.len() && !start_code_at(b, j) {
        lemma_next_start_code_shift(a, b, j + 1);
    }
}

proof fn lemma_annexb_units_shift(a: Seq<u8>, b: Seq<u8>, j: int)
    requires
        0 <= j <= b.len(),
    ensures
        annexb_units_from(a + b, a.len() + j) == annexb_units_from(b, j),
    decreases b.len() - j,
{
    let p = a + b;
    let i = a.len() + j;
    lemma_next_start_code_shift(a, b, j);
    lemma_next_start_code(b, j);
    let s = next_start_code(b, j);
    if s < b.len() {
        assert(start_code_len(p, a.len() + s) == start_code_len(b, s)) by {
            if s + 3 <= b.len() {
                assert(p[a.len() + s] == b[s]);
                assert(p[a.len() + s + 1] == b[s + 1]);
                assert(p[a.len() + s + 2] == b[s + 2]);
            }
        }
        let bb = s + start_code_len(b, s);
        if bb < b.len() {
            lemma_next_start_code_shift(a, b, bb);
            lemma_next_start_code(b, bb);
            let e = next_start_code(b, bb);
            lemma_annexb_units_shift(a, b, e);
            if e > bb {
                assert(p.subrange(a.len() + bb, a.len() + e) =~= b.subrange(bb, e));
            }
        }
    }
}

proof fn lemma_avcc_units_shift(a: Seq<u8>, b: Seq<u8>, n: nat, j: int)
    requires
        0 <= j <= b.len(),
    ensures
        avcc_units_from(a + b, n, a.len() + j) == avcc_units_from(b, n, j),
    decreases b.len() - j,
{
    let p = a + b;
    let i = a.len() + j;
    if j < b.len() && n != 0 && j + n <= b.len() {
        assert(p.subrange(i, i + n) =~= b.subrange(j, j + n));
        let l = be_value(b.subrange(j, j + n));
        if l != 0 && j + n + l <= b.len() {
            lemma_avcc_units_shift(a, b, n, j + n + l);
            assert(p.subrange(i + n, i + n + l) =~= b.subrange(j + n, j + n + l));
        }
    }
}

// ---------------------------------------------------------------------
// The joins, taken apart at the front.

proof fn lemma_annexb_join_front(u: Seq<u8>, rest: Seq<Seq<u8>>)
    ensures
        annexb_join(seq![u] + rest) == seq![0u8, 0u8, 0u8, 1u8] + u + annexb_join(rest),
    decreases rest.len(),
{
    let sc = seq![0u8, 0u8, 0u8, 1u8];
    let all = seq![u] + rest;
    if rest.len() == 0 {
        assert(all =~= seq![u]);
        assert(all.drop_last() =~= Seq::<Seq<u8>>::empty());
        assert(all.last() == u);
        assert(annexb_join(Seq::<Seq<u8>>::empty()) == Seq::<u8>::empty());
        assert(annexb_join(rest) == Seq::<u8>::empty());
        assert(annexb_join(all) == annexb_join(all.drop_last()) + sc + all.last());
        assert(Seq::<u8>::empty() + sc + u =~= sc + u + Seq::<u8>::empty());
    } else {
        lemma_annexb_join_front(u, rest.drop_last());
        assert(all.drop_last() =~= seq![u] + rest.drop_last());
        assert(all.last() == rest.last());
        assert(annexb_join(all) == annexb_join(all.drop_last()) + sc + all.last());
        assert(annexb_join(rest) == annexb_join(rest.drop_last()) + sc + rest.last());
        assert(sc + u + annexb_join(rest.drop_last()) + sc + rest.last() =~= sc + u + (annexb_join(
            rest.drop_last(),
        ) + sc + rest.last()));
    }
}

proof fn lemma_avcc_join_front(u: Seq<u8>, rest: Seq<Seq<u8>>, n: nat)
    ensures
        avcc_join(seq![u] + rest, n) == be_bytes(u.len(), n) + u + avcc_join(rest, n),
    decreases rest.len(),
{
    let h = be_bytes(u.len(), n);
    let all = seq![u] + rest;
    if rest.len() == 0 {
        assert(all =~= seq![u]);
        assert(all.drop_last() =~= Seq::<Seq<u8>>::empty());
        assert(all.last() == u);
        assert(avcc_join(Seq::<Seq<u8>>::empty(), n) == Seq::<u8>::empty());
        assert(avcc_join(rest, n) == Seq::<u8>::empty());
        assert(avcc_join(all, n) == avcc_join(all.drop_last(), n) + be_bytes(all.last().len(), n)
            + all.last());
        assert(Seq::<u8>::empty() + h + u =~= h + u + Seq::<u8>::empty());
    } else {
        lemma_avcc_join_front(u, rest.drop_last(), n);
        assert(all.drop_last() =~= seq![u] + rest.drop_last());
        assert(all.last() == rest.last());
        let t = be_bytes(rest.last().len(), n);
        assert(avcc_join(all, n) == avcc_join(all.drop_last(), n) + t + all.last());
        assert(avcc_join(rest, n) == avcc_join(rest.drop_last(), n) + t + rest.last());
        assert(h + u + avcc_join(rest.drop_last(), n) + t + rest.last() =~= h + u + (avcc_join(
            rest.drop_last(),
            n,
        ) + t + rest.last()));
    }
}

// ---------------------------------------------------------------------
// Big-endian lengths.

proof fn lemma_be_bytes_len(x: nat, n: nat)
    ensures
        be_bytes(x, n).len() == n,
    decreases n,
{
    if n > 0 {
        lemma_be_bytes_len(x / 256, (n - 1) as nat);
    }
}

proof fn lemma_be_value_of_bytes(x: nat, n: nat)
    requires
        x < pow256(n),
    ensures
        be_value(be_bytes(x, n)) == x,
    decreases n,
{
    if n > 0 {
        let q = x / 256;
        assert(q < pow256((n - 1) as nat)) by (nonlinear_arith)
            requires
                x < 256 * pow256((n - 1) as nat),
                q == x / 256,
        ;
        lemma_be_value_of_bytes(q, (n - 1) as nat);
        let b = be_bytes(x, n);
        assert(b.drop_last() =~= be_bytes(q, (n - 1) as nat));
        assert(b.last() == (x % 256) as u8);
        assert(q * 256 + x % 256 == x) by (nonlinear_arith)
            requires
                q == x / 256,
        ;
    }
}

proof fn lemma_be_bytes_of_value(s: Seq<u8>)
    ensures
        be_bytes(be_value(s), s.len()) == s,
    decreases s.len(),
{
    if s.len() > 0 {
        let v = be_value(s);
        let w = be_value(s.drop_last());
        lemma_be_bytes_of_value(s.drop_last());
        assert(v / 256 == w && v % 256 == s.last()) by (nonlinear_arith)
            requires
                v == w * 256 + s.last() as nat,
                s.last() < 256,
        ;
        assert(be_bytes(v, s.len()) =~= be_bytes(w, s.drop_last().len()).push(s.last()));
        assert(s.drop_last().push(s.last()) =~= s);
    }
}

proof fn lemma_pow256_monotone(n: nat)
    ensures
        pow256(n) >= 1,
    decreases n,
{
    if n > 0 {
        lemma_pow256_monotone((n - 1) as nat);
    }
}

// ---------------------------------------------------------------------
// AVCC: parsing what was joined.

proof fn lemma_avcc_units_of_join(units: Seq<Seq<u8>>, n: nat)
    requires
        n >= 1,
        forall|k: int| 0 <= k < units.len() ==> #[trigger] units[k].len() > 0 && units[k].len() < pow256(n),
    ensures
        avcc_units(avcc_join(units, n), n) == Some(units),
    decreases units.len(),
{
    if units.len() == 0 {
        assert(avcc_join(units, n) =~= Seq::<u8>::empty());
    } else {
        let u = units[0];
        let rest = units.drop_first();
        assert(seq![u] + rest =~= units);
        assert forall|k: int| 0 <= k < rest.len() implies #[trigger] rest[k].len() > 0 && rest[k].len()
            < pow256(n) by {
            assert(rest[k] == units[k + 1]);
        }
        lemma_avcc_units_of_join(rest, n);
        lemma_avcc_join_front(u, rest, n);
        lemma_be_bytes_len(u.len(), n);
        lemma_be_value_of_bytes(u.len(), n);
        let head = be_bytes(u.len(), n) + u;
        let p = head + avcc_join(rest, n);
        assert(p.subrange(0, n as int) =~= be_bytes(u.len(), n));
        assert(p.subrange(n as int, n as int + u.len()) =~= u);
        lemma_avcc_units_shift(head, avcc_join(rest, n), n, 0);
        assert(head.len() + 0 == n + u.len());
    }
}

proof fn lemma_join_of_avcc_units(p: Seq<u8>, n: nat, i: int)
    requires
        0 <= i <= p.len(),
        avcc_units_from(p, n, i) is Some,
    ensures
        avcc_join(avcc_units_from(p, n, i)->0, n) == p.subrange(i, p.len() as int),
    decreases p.len() - i,
{
    if i == p.len() {
        assert(p.subrange(i, i) =~= Seq::<u8>::empty());
    } else {
        let l = be_value(p.subrange(i, i + n));
        let u = p.subrange(i + n, i + n + l);
        lemma_join_of_avcc_units(p, n, i + n + l);
        let rest = avcc_units_from(p, n, i + n + l)->0;
        assert(avcc_units_from(p, n, i)->0 == seq![u] + rest);
        lemma_avcc_join_front(u, rest, n);
        lemma_be_bytes_of_value(p.subrange(i, i + n));
        assert(u.len() == l);
        assert(be_bytes(l, n) == p.subrange(i, i + n));
        assert(p.subrange(i, i + n) + u + p.subrange(i + n + l, p.len() as int) =~= p.subrange(
            i,
            p.len() as int,
        ));
    }
}

// ---------------------------------------------------------------------
// Annex B: scanning what was joined.

proof fn lemma_next_start_code_exact(p: Seq<u8>, i: int, j: int)
    requires
        0 <= i <= j <= p.len(),
        forall|k: int| i <= k < j ==> !start_code_at(p, k),
        j == p.len() || start_code_at(p, j),
    ensures
        next_start_code(p, i) == j,
    decreases j - i,
{
    if i < j {
        lemma_next_start_code_exact(p, i + 1, j);
    }
}

proof fn lemma_annexb_units_of_join(units: Seq<Seq<u8>>)
    requires
        well_formed_units(units),
    ensures
        annexb_units(annexb_join(units)) == units,
    decreases units.len(),
{
    if units.len() == 0 {
        let p = annexb_join(units);
        assert(p =~= Seq::<u8>::empty());
        assert(next_start_code(p, 0) == 0);
    } else {
        let u = units[0];
        let rest = units.drop_first();
        assert(seq![u] + rest =~= units);
        assert forall|k: int| 0 <= k < rest.len() implies #[trigger] rest[k].len() > 0
            && free_of_start_codes(rest[k]) by {
            assert(rest[k] == units[k + 1]);
        }
        lemma_annexb_units_of_join(rest);
        lemma_annexb_join_front(u, rest);
        let sc = seq![0u8, 0u8, 0u8, 1u8];
        let head = sc + u;
        let tail = annexb_join(rest);
        let p = head + tail;
        assert(p == annexb_join(units));
        let end: int = 4 + u.len() as int;
        assert(u.len() > 0 && free_of_start_codes(u));
        // The tail is empty or opens with a four-byte start code.
        if rest.len() > 0 {
            lemma_annexb_join_front(rest[0], rest.drop_first());
            assert(seq![rest[0]] + rest.drop_first() =~= rest);
            assert(tail[0] == 0 && tail[1] == 0 && tail[2] == 0 && tail[3] == 1);
        }
        assert(p[0] == 0 && p[1] == 0 && p[2] == 0 && p[3] == 1);
        assert(start_code_at(p, 0) && !start3_at(p, 0));
        assert(next_start_code(p, 0) == 0);
        assert forall|k: int| 4 <= k < end implies !start_code_at(p, k) by {
            if start3_at(p, k) {
                if k + 2 < end {
                    assert(u[k - 4] == p[k] && u[k - 3] == p[k + 1] && u[k - 2] == p[k + 2]);
                } else {
                    assert(rest.len() > 0);
                    assert(p[k + 2] == tail[k + 2 - end]);
                }
            }
            if start4_at(p, k) {
                if k + 3 < end {
                    assert(u[k - 3] == p[k + 1] && u[k - 2] == p[k + 2] && u[k - 1] == p[k + 3]);
                } else {
                    assert(rest.len() > 0);
                    assert(p[k + 3] == tail[k + 3 - end]);
                }
            }
        }
        if rest.len() > 0 {
            assert(start_code_at(p, end)) by {
                assert(p[end] == tail[0] && p[end + 1] == tail[1] && p[end + 2] == tail[2] && p[end
                    + 3] == tail[3]);
            }
        }
        lemma_next_start_code_exact(p, 4, end);
        assert(p.subrange(4, end) =~= u);
        lemma_annexb_units_shift(head, tail, 0);
        assert(annexb_units_from(p, 0) == seq![u] + annexb_units_from(p, end));
    }
}

// ---------------------------------------------------------------------
// The laws.

/// Annex B → AVCC keeps the NAL units: the AVCC that `annexb_to_avcc` makes
/// of a stream splits, with four-byte lengths, into the units that
/// `split_annexb_nals` finds in it.
pub proof fn law_annexb_to_avcc_keeps_units(q: Seq<u8>)
    requires
        spec_annexb_to_avcc(q) is Some,
    ensures
        spec_split_avcc_nals(spec_annexb_to_avcc(q)->0, 4) == spec_split_annexb_nals(q),
{
    let units = annexb_units(q);
    lemma_annexb_units_nonempty_pub(q);
    assert(pow256(4) == 4294967296) by {
        reveal_with_fuel(pow256, 5);
    }
    assert forall|k: int| 0 <= k < units.len() implies #[trigger] units[k].len() > 0 && units[k].len()
        < pow256(4) by {
        if units[k].len() > u32::MAX {
            assert(has_oversized_unit(units));
        }
    }
    lemma_avcc_units_of_join(units, 4);
}

/// AVCC → Annex B keeps the NAL units: when no unit holds a start code
/// (as emulation prevention guarantees), the Annex B stream that
/// `avcc_to_annexb` makes splits into the same units as the AVCC payload.
pub proof fn law_avcc_to_annexb_keeps_units(p: Seq<u8>, n: nat)
    requires
        spec_split_avcc_nals(p, n) matches Some(units) && well_formed_units(units),
    ensures
        spec_split_annexb_nals(spec_avcc_to_annexb(p, n)->0) == spec_split_avcc_nals(p, n),
{
    let units = spec_split_avcc_nals(p, n)->0;
    lemma_annexb_units_of_join(units);
}

/// AVCC with four-byte lengths survives the round trip through Annex B:
/// `annexb_to_avcc(avcc_to_annexb(p, 4))` gives `p` back.
pub proof fn law_avcc4_annexb_round_trip(p: Seq<u8>)
    requires
        spec_split_avcc_nals(p, 4) matches Some(units) && well_formed_units(units),
    ensures
        spec_annexb_to_avcc(spec_avcc_to_annexb(p, 4)->0) == Some(p),
{
    let units = spec_split_avcc_nals(p, 4)->0;
    lemma_annexb_units_of_join(units);
    lemma_join_of_avcc_units(p, 4, 0);
    assert(p.subrange(0, p.len() as int) =~= p);
    lemma_avcc_units_bounded(p, 4, 0);
    assert(!has_oversized_unit(units));
}

/// Annex B survives the round trip through AVCC in canonical form: the
/// stream's units come back framed with four-byte start codes.
pub proof fn law_annexb_avcc_round_trip(q: Seq<u8>)
    requires
        spec_annexb_to_avcc(q) is Some,
    ensures
        spec_avcc_to_annexb(spec_annexb_to_avcc(q)->0, 4) == Some(annexb_join(annexb_units(q))),
{
    law_annexb_to_avcc_keeps_units(q);
}

/// A sample with two- or one-byte lengths (and no valid four-byte reading)
/// is re-framed with four-byte lengths around the same units.
pub proof fn law_vt_prepare_widens_lengths(p: Seq<u8>, n: nat)
    requires
        n == 2 || n == 1,
        p.len() > 0,
        !start_code_at(p, 0),
        spec_avcc_to_annexb(p, 4) is None,
        n == 1 ==> spec_avcc_to_annexb(p, 2) is None,
        spec_split_avcc_nals(p, n) matches Some(units) && well_formed_units(units),
    ensures
        spec_vt_prepare_sample_payload(p) == Some(avcc_join(spec_split_avcc_nals(p, n)->0, 4)),
        spec_split_avcc_nals(spec_vt_prepare_sample_payload(p)->0, 4) == spec_split_avcc_nals(p, n),
{
    let units = spec_split_avcc_nals(p, n)->0;
    lemma_annexb_units_of_join(units);
    let q = annexb_join(units);
    lemma_avcc_units_bounded(p, n, 0);
    assert(!has_oversized_unit(units));
    assert(spec_annexb_to_avcc(q) == Some(avcc_join(units, 4)));
    law_annexb_to_avcc_keeps_units(q);
}

proof fn lemma_avcc_units_bounded(p: Seq<u8>, n: nat, i: int)
    requires
        1 <= n <= 4,
    ensures
        avcc_units_from(p, n, i) matches Some(units) ==> forall|k: int| 0 <= k < units.len()
            ==> #[trigger] units[k].len() <= u32::MAX,
    decreases p.len() - i,
{
    if 0 <= i < p.len() && i + n <= p.len() {
        let l = be_value(p.subrange(i, i + n));
        if l != 0 && i + n + l <= p.len() {
            lemma_avcc_units_bounded(p, n, i + n + l);
            lemma_be_value_bound_pub(p.subrange(i, i + n));
            assert(pow256(n) <= 4294967296) by {
                reveal_with_fuel(pow256, 5);
            }
            match avcc_units_from(p, n, i + n + l) {
                Some(rest) => {
                    let all = seq![p.subrange(i + n, i + n + l)] + rest;
                    assert forall|k: int| 0 <= k < all.len() implies #[trigger] all[k].len()
                        <= u32::MAX by {
                        if k > 0 {
                            assert(all[k] == rest[k - 1]);
                        }
                    }
                },
                None => {},
            }
        }
    }
}


// ---------------------------------------------------------------------
// Where the Annex B units lie in the stream.

/// Where each unit of `annexb_units_from(p, i)` begins in `p`.
spec fn annexb_unit_starts_from(p: Seq<u8>, i: int) -> Seq<int>
    decreases p.len() - i,
{
    if i < 0 || i > p.len() {
        seq![]
    } else {
        let s = next_start_code(p, i);
        if s >= p.len() {
            seq![]
        } else {
            let b = s + start_code_len(p, s);
            if b >= p.len() {
                seq![]
            } else {
                let e = next_start_code(p, b);
                proof {
                    lemma_next_start_code(p, i);
                    lemma_next_start_code(p, b);
                }
                if e > b {
                    seq![b] + annexb_unit_starts_from(p, e)
                } else {
                    annexb_unit_starts_from(p, e)
                }
            }
        }
    }
}

/// The units are the slices of `p` that begin at `starts`, in order and
/// apart from each other, each non-empty and free of start codes.
pub open spec fn units_are_slices_at(p: Seq<u8>, units: Seq<Seq<u8>>, starts: Seq<int>, from: int) -> bool {
    &&& starts.len() == units.len()
    &&& forall|k: int| 0 <= k < units.len() ==> {
        &&& from <= #[trigger] starts[k]
        &&& starts[k] + units[k].len() <= p.len()
        &&& units[k] == p.subrange(starts[k], starts[k] + units[k].len())
        &&& units[k].len() > 0
        &&& free_of_start_codes(units[k])
    }
    &&& forall|k: int, j: int| 0 <= k < j < units.len() ==> #[trigger] starts[k] + units[k].len() < #[trigger] starts[j]
}

proof fn lemma_annexb_units_are_slices(p: Seq<u8>, i: int)
    requires
        0 <= i <= p.len(),
    ensures
        units_are_slices_at(p, annexb_units_from(p, i), annexb_unit_starts_from(p, i), i + 3),
    decreases p.len() - i,
{
    let units = annexb_units_from(p, i);
    let starts = annexb_unit_starts_from(p, i);
    lemma_next_start_code(p, i);
    let s = next_start_code(p, i);
    if s < p.len() {
        let b = s + start_code_len(p, s);
        if b < p.len() {
            lemma_next_start_code(p, b);
            let e = next_start_code(p, b);
            lemma_annexb_units_are_slices(p, e);
            let rest = annexb_units_from(p, e);
            let rest_starts = annexb_unit_starts_from(p, e);
            if e > b {
                let u = p.subrange(b, e);
                assert(units == seq![u] + rest);
                assert(starts == seq![b] + rest_starts);
                assert(free_of_start_codes(u)) by {
                    assert forall|k: int| 0 <= k && k + 2 < u.len() implies !(#[trigger] u[k] == 0
                        && u[k + 1] == 0 && u[k + 2] == 1) by {
                        assert(!start_code_at(p, b + k));
                        assert(u[k] == p[b + k] && u[k + 1] == p[b + k + 1] && u[k + 2] == p[b + k + 2]);
                    }
                }
                assert forall|k: int| 0 <= k < units.len() implies {
                    &&& i + 3 <= #[trigger] starts[k]
                    &&& starts[k] + units[k].len() <= p.len()
                    &&& units[k] == p.subrange(starts[k], starts[k] + units[k].len())
                    &&& units[k].len() > 0
                    &&& free_of_start_codes(units[k])
                } by {
                    if k > 0 {
                        assert(units[k] == rest[k - 1] && starts[k] == rest_starts[k - 1]);
                    }
                }
                assert forall|k: int, j: int| 0 <= k < j < units.len() implies #[trigger] starts[k]
                    + units[k].len() < #[trigger] starts[j] by {
                    assert(units[j] == rest[j - 1] && starts[j] == rest_starts[j - 1]);
                    if k > 0 {
                        assert(units[k] == rest[k - 1] && starts[k] == rest_starts[k - 1]);
                    }
                }
            } else {
                assert(units == rest);
                assert(starts == rest_starts);
            }
        }
    }
}

/// `split_annexb_nals` finds nothing in a stream without `00 00 01`; what it
/// does find are non-empty slices of the stream, in stream order and apart
/// from each other, none of which holds `00 00 01`.
pub proof fn law_split_annexb_units_are_slices(p: Seq<u8>)
    ensures
        (forall|i: int| !#[trigger] start3_at(p, i)) ==> spec_split_annexb_nals(p) is None,
        spec_split_annexb_nals(p) matches Some(units) ==> units.len() > 0 && exists|starts: Seq<int>|
            #[trigger] units_are_slices_at(p, units, starts, 0),
{
    lemma_next_start_code(p, 0);
    if forall|i: int| !#[trigger] start3_at(p, i) {
        let s = next_start_code(p, 0);
        if s < p.len() {
            assert(start_code_at(p, s));
            assert(start3_at(p, s) || start3_at(p, s + 1));
        }
        assert(annexb_units(p) == Seq::<Seq<u8>>::empty());
    }
    lemma_annexb_units_are_slices(p, 0);
    let units = annexb_units(p);
    let starts = annexb_unit_starts_from(p, 0);
    assert forall|k: int| 0 <= k < units.len() implies 0 <= #[trigger] starts[k] by {
        assert(3 <= starts[k]);
    }
    assert(units_are_slices_at(p, units, starts, 0));
    assert(units.len() > 0 ==> spec_split_annexb_nals(p) == Some(units));
}


/// Looking for SPS/PPS (types 7, 8) or IDR (type 5) units in an Annex B
/// stream finds one exactly when the units that `split_annexb_nals` gives
/// hold one; a stream that does not split holds none.
pub proof fn law_unit_type_detection_follows_split(p: Seq<u8>)
    ensures
        has_unit_type(annexb_units(p), 7, 8) == (match spec_split_annexb_nals(p) {
            Some(units) => has_unit_type(units, 7, 8),
            None => false,
        }),
        has_unit_type(annexb_units(p), 5, 5) == (match spec_split_annexb_nals(p) {
            Some(units) => has_unit_type(units, 5, 5),
            None => false,
        }),
{
    let units = annexb_units(p);
    if units.len() == 0 {
        assert(!has_unit_type(units, 7, 8));
        assert(!has_unit_type(units, 5, 5));
    }
}


// ---------------------------------------------------------------------
// Stored parameter sets put ahead of a keyframe.

/// Every unit ends in a non-zero byte, as a NAL unit's trailing bits make
/// it do.
pub open spec fn ends_nonzero(units: Seq<Seq<u8>>) -> bool {
    forall|k: int| 0 <= k < units.len() ==> #[trigger] units[k][units[k].len() - 1] != 0
}

/// A unit free of start codes and ending in a non-zero byte, framed by a
/// four-byte start code at the front of `p`, holds no start code inside.
proof fn lemma_no_start_code_inside(p: Seq<u8>, u: Seq<u8>)
    requires
        u.len() > 0,
        free_of_start_codes(u),
        u[u.len() - 1] != 0,
        p.len() >= 4 + u.len(),
        forall|x: int| 0 <= x < u.len() ==> #[trigger] p[4 + x] == u[x],
    ensures
        forall|k: int| 4 <= k < 4 + u.len() ==> !start_code_at(p, k),
{
    let end = 4 + u.len();
    assert forall|k: int| 4 <= k < end implies !start_code_at(p, k) by {
        assert(p[4 + (u.len() - 1)] == u[u.len() - 1]);
        if start3_at(p, k) {
            if k + 2 < end {
                assert(p[4 + (k - 4)] == u[k - 4] && p[4 + (k - 3)] == u[k - 3] && p[4 + (k - 2)]
                    == u[k - 2]);
            }
        }
        if start4_at(p, k) {
            if k + 3 < end {
                assert(p[4 + (k - 3)] == u[k - 3] && p[4 + (k - 2)] == u[k - 2] && p[4 + (k - 1)]
                    == u[k - 1]);
            }
        }
    }
}

#[verifier::spinoff_prover]
#[verifier::rlimit(60)]
proof fn lemma_annexb_units_of_join_then(units: Seq<Seq<u8>>, q: Seq<u8>)
    requires
        well_formed_units(units),
        ends_nonzero(units),
        q.len() == 0 || start_code_at(q, 0),
    ensures
        annexb_units(annexb_join(units) + q) == units + annexb_units(q),
    decreases units.len(),
{
    if units.len() == 0 {
        assert(annexb_join(units) =~= Seq::<u8>::empty());
        assert(annexb_join(units) + q =~= q);
        assert(units + annexb_units(q) =~= annexb_units(q));
    } else {
        let u = units[0];
        let rest = units.drop_first();
        assert(seq![u] + rest =~= units);
        assert forall|k: int| 0 <= k < rest.len() implies #[trigger] rest[k].len() > 0
            && free_of_start_codes(rest[k]) by {
            assert(rest[k] == units[k + 1]);
        }
        assert forall|k: int| 0 <= k < rest.len() implies #[trigger] rest[k][rest[k].len() - 1] != 0 by {
            assert(rest[k] == units[k + 1]);
        }
        lemma_annexb_units_of_join_then(rest, q);
        lemma_annexb_join_front(u, rest);
        let sc = seq![0u8, 0u8, 0u8, 1u8];
        let head = sc + u;
        let tail = annexb_join(rest) + q;
        let p = head + tail;
        assert(p =~= annexb_join(units) + q);
        let end: int = 4 + u.len() as int;
        assert(u.len() > 0 && free_of_start_codes(u));
        assert(u[u.len() - 1] != 0);
        assert forall|x: int| 0 <= x < u.len() implies #[trigger] p[4 + x] == u[x] by {}
        if rest.len() > 0 {
            lemma_annexb_join_front(rest[0], rest.drop_first());
            assert(seq![rest[0]] + rest.drop_first() =~= rest);
            let jr = annexb_join(rest);
            assert(jr[0] == 0 && jr[1] == 0 && jr[2] == 0 && jr[3] == 1);
            assert(tail[0] == 0 && tail[1] == 0 && tail[2] == 0 && tail[3] == 1);
            assert(start4_at(p, end)) by {
                assert(p[end] == tail[0] && p[end + 1] == tail[1] && p[end + 2] == tail[2] && p[end
                    + 3] == tail[3]);
            }
        } else {
            assert(annexb_join(rest) =~= Seq::<u8>::empty());
            assert(tail =~= q);
            if q.len() > 0 {
                assert(start_code_at(p, end)) by {
                    if start3_at(q, 0) {
                        assert(p[end] == q[0] && p[end + 1] == q[1] && p[end + 2] == q[2]);
                    } else {
                        assert(p[end] == q[0] && p[end + 1] == q[1] && p[end + 2] == q[2] && p[end
                            + 3] == q[3]);
                    }
                }
            }
        }
        assert(p[0] == 0 && p[1] == 0 && p[2] == 0 && p[3] == 1);
        assert(start_code_at(p, 0) && !start3_at(p, 0));
        assert(next_start_code(p, 0) == 0);
        lemma_no_start_code_inside(p, u);
        lemma_next_start_code_exact(p, 4, end);
        assert(p.subrange(4, end) =~= u);
        lemma_annexb_units_shift(head, tail, 0);
        assert(annexb_units_from(p, 0) == seq![u] + annexb_units_from(p, end));
        assert(seq![u] + (rest + annexb_units(q)) =~= units + annexb_units(q));
    }
}

proof fn lemma_nonempty_units_keeps_nonempty(units: Seq<Seq<u8>>)
    requires
        forall|k: int| 0 <= k < units.len() ==> #[trigger] units[k].len() > 0,
    ensures
        nonempty_units(units) == units,
    decreases units.len(),
{
    if units.len() > 0 {
        let init = units.drop_last();
        assert forall|k: int| 0 <= k < init.len() implies #[trigger] init[k].len() > 0 by {
            assert(init[k] == units[k]);
        }
        lemma_nonempty_units_keeps_nonempty(init);
        assert(init.push(units.last()) =~= units);
    }
}

proof fn lemma_avcc_to_annexb_opens(p: Seq<u8>, n: nat)
    ensures
        spec_avcc_to_annexb(p, n) matches Some(q) ==> q.len() == 0 || start_code_at(q, 0),
{
    if let Some(units) = spec_split_avcc_nals(p, n) {
        if units.len() > 0 {
            lemma_annexb_join_front(units[0], units.drop_first());
            assert(seq![units[0]] + units.drop_first() =~= units);
            let q = annexb_join(units);
            assert(q[0] == 0 && q[1] == 0 && q[2] == 0 && q[3] == 1);
        } else {
            assert(annexb_join(units) =~= Seq::<u8>::empty());
        }
    }
}

/// A keyframe that carries no SPS or PPS of its own gets every stored
/// parameter set (each SPS and each PPS, in stored order) ahead of it: the
/// result splits into the stored sets followed by the keyframe's own units.
pub proof fn law_keyframe_gets_stored_parameter_sets(
    nal_length_size: Option<usize>,
    sets: Seq<Seq<u8>>,
    p: Seq<u8>,
)
    requires
        spec_annexb_for_decode(nal_length_size, p) matches Some(annexb) && !has_unit_type(
            annexb_units(annexb),
            7,
            8,
        ),
        sets.len() > 0,
        well_formed_units(sets),
        ends_nonzero(sets),
    ensures
        spec_normalize_for_decode(nal_length_size, sets, p, true) matches Some(out) && annexb_units(
            out,
        ) == sets + annexb_units(spec_annexb_for_decode(nal_length_size, p)->0),
{
    let q = spec_annexb_for_decode(nal_length_size, p)->0;
    if !start_code_at(p, 0) {
        match nal_length_size {
            Some(n) => lemma_avcc_to_annexb_opens(p, n as nat),
            None => {
                lemma_avcc_to_annexb_opens(p, 4);
                lemma_avcc_to_annexb_opens(p, 2);
                lemma_avcc_to_annexb_opens(p, 1);
            },
        }
    }
    assert(q.len() == 0 || start_code_at(q, 0));
    assert forall|k: int| 0 <= k < sets.len() implies #[trigger] sets[k].len() > 0 by {
        assert(sets[k].len() > 0 && free_of_start_codes(sets[k]));
    }
    lemma_nonempty_units_keeps_nonempty(sets);
    lemma_annexb_units_of_join_then(sets, q);
}

} // verus!
