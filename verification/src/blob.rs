//! Byte-level model of the CloudStore Night Light blobs.
//!
//! Two blob kinds share a layout prefix: a 10-byte header, then a 5-byte
//! variable-length Unix timestamp at bytes 10..15 (four 7-bit groups with the
//! high bit set, then the remaining high bits), then tagged fields.
//! The colour temperature field is the pair `CF 28` followed by two bytes.

use vstd::prelude::*;

verus! {

// ---------------------------------------------------------------------------
// Byte-pair search
// ---------------------------------------------------------------------------

/// The bytes `a b` stand at positions `i`, `i + 1` of `s`.
pub open spec fn pair_at(s: Seq<u8>, i: int, a: u8, b: u8) -> bool {
    0 <= i && i + 1 < s.len() && s[i] == a && s[i + 1] == b
}

/// The first position at or after `from` where the pair `a b` starts.
pub open spec fn first_pair_from(s: Seq<u8>, a: u8, b: u8, from: nat) -> Option<int>
    decreases s.len() - from,
{
    if from + 1 >= s.len() {
        None
    } else if pair_at(s, from as int, a, b) {
        Some(from as int)
    } else {
        first_pair_from(s, a, b, from + 1)
    }
}

/// What `first_pair_from` returns, stated without recursion.
pub proof fn lemma_first_pair_from(s: Seq<u8>, a: u8, b: u8, from: nat)
    ensures
        match first_pair_from(s, a, b, from) {
            Some(i) => from <= i && pair_at(s, i, a, b) && forall|j: int|
                from <= j < i ==> !#[trigger] pair_at(s, j, a, b),
            None => forall|j: int| from <= j ==> !#[trigger] pair_at(s, j, a, b),
        },
    decreases s.len() - from,
{
    if from + 1 < s.len() && !pair_at(s, from as int, a, b) {
        lemma_first_pair_from(s, a, b, from + 1);
    }
}

/// The converse: a pair with no pair before it (from `from` on) is the first one.
pub proof fn lemma_first_pair_is(s: Seq<u8>, a: u8, b: u8, from: nat, i: int)
    requires
        from <= i,
        pair_at(s, i, a, b),
        forall|j: int| from <= j < i ==> !#[trigger] pair_at(s, j, a, b),
    ensures
        first_pair_from(s, a, b, from) == Some(i),
    decreases i - from,
{
    if from < i {
        assert(!pair_at(s, from as int, a, b));
        lemma_first_pair_is(s, a, b, from + 1, i);
    }
}

/// Finds the first position at or after `from` where the pair `a b` starts.
pub fn find_pair_from(data: &[u8], a: u8, b: u8, from: usize) -> (r: Option<usize>)
    ensures
        match r {
            Some(i) => first_pair_from(data@, a, b, from as nat) == Some(i as int),
            None => first_pair_from(data@, a, b, from as nat) is None,
        },
{
    let mut i = from;
    while i < data.len() && data.len() - i > 1
        invariant
            from <= i,
            first_pair_from(data@, a, b, from as nat) == first_pair_from(data@, a, b, i as nat),
        decreases data.len() - i,
    {
        if data[i] == a && data[i + 1] == b {
            return Some(i);
        }
        i = i + 1;
    }
    None
}


// ---------------------------------------------------------------------------
// Embedded timestamp (bytes 10..15)
// ---------------------------------------------------------------------------

/// Lower bound of a plausible embedded timestamp: 2020-01-01T00:00:00Z.
pub const UNIX_2020: u64 = 1577836800;

/// One day in seconds: how far ahead of the clock a timestamp may still be trusted.
pub const ONE_DAY: u64 = 86400;

/// The value that bytes 10..15 of a blob of at least 15 bytes encode.
pub open spec fn ts_value(s: Seq<u8>) -> u64 {
    (s[10] as u64 & 0x7F) | ((s[11] as u64 & 0x7F) << 7u64) | ((s[12] as u64 & 0x7F) << 14u64)
        | ((s[13] as u64 & 0x7F) << 21u64) | ((s[14] as u64) << 28u64)
}

/// The embedded timestamp; `None` for a blob shorter than 15 bytes.
pub open spec fn embedded_ts(s: Seq<u8>) -> Option<u64> {
    if s.len() < 15 {
        None
    } else {
        Some(ts_value(s))
    }
}

/// Byte `10 + k` of the encoding of `t` (`k < 4`): a 7-bit group with the high bit set.
pub open spec fn ts_group(t: u64, k: u64) -> u8 {
    (((t >> (7 * k)) & 0x7F) | 0x80) as u8
}

/// Byte 14 of the encoding of `t`: the bits from 28 up, truncated to a byte.
pub open spec fn ts_top(t: u64) -> u8 {
    (t >> 28u64) as u8
}

/// `s` with bytes 10..15 replaced by the encoding of `t`.
pub open spec fn put_ts(s: Seq<u8>, t: u64) -> Seq<u8> {
    s.update(10, ts_group(t, 0)).update(11, ts_group(t, 1)).update(12, ts_group(t, 2)).update(
        13,
        ts_group(t, 3),
    ).update(14, ts_top(t))
}

/// An embedded timestamp holds at most 36 bits.
pub proof fn lemma_ts_value_bound(s: Seq<u8>)
    requires
        s.len() >= 15,
    ensures
        ts_value(s) < 0x10_0000_0000,
{
    let (b0, b1, b2, b3, b4) = (s[10], s[11], s[12], s[13], s[14]);
    assert((b0 as u64 & 0x7F) | ((b1 as u64 & 0x7F) << 7u64) | ((b2 as u64 & 0x7F) << 14u64) | ((
    b3 as u64 & 0x7F) << 21u64) | ((b4 as u64) << 28u64) < 0x10_0000_0000) by (bit_vector);
}

/// Decodes the embedded timestamp; `None` when the blob is shorter than 15 bytes.
pub fn embedded_timestamp(data: &[u8]) -> (r: Option<u64>)
    ensures
        r == embedded_ts(data@),
        r matches Some(t) ==> t < 0x10_0000_0000,
{
    if data.len() < 15 {
        return None;
    }
    proof {
        lemma_ts_value_bound(data@);
    }
    Some(
        (data[10] as u64 & 0x7F) | ((data[11] as u64 & 0x7F) << 7u64) | ((data[12] as u64 & 0x7F)
            << 14u64) | ((data[13] as u64 & 0x7F) << 21u64) | ((data[14] as u64) << 28u64),
    )
}

/// Writes the 5-byte encoding of `t` into bytes 10..15.
pub fn encode_timestamp(data: &mut Vec<u8>, t: u64)
    requires
        old(data).len() >= 15,
    ensures
        final(data)@ == put_ts(old(data)@, t),
{
    let b0 = ((t & 0x7F) | 0x80) as u8;
    let b1 = (((t >> 7u64) & 0x7F) | 0x80) as u8;
    let b2 = (((t >> 14u64) & 0x7F) | 0x80) as u8;
    let b3 = (((t >> 21u64) & 0x7F) | 0x80) as u8;
    let b4 = (t >> 28u64) as u8;
    assert(b0 == ts_group(t, 0) && b1 == ts_group(t, 1) && b2 == ts_group(t, 2) && b3 == ts_group(
        t,
        3,
    )) by {
        assert(t >> (7 * 0u64) == t) by (bit_vector);
    }
    data.set(10, b0);
    data.set(11, b1);
    data.set(12, b2);
    data.set(13, b3);
    data.set(14, b4);
}

/// Reading back the timestamp just encoded gives its low 36 bits.
pub proof fn lemma_timestamp_roundtrip(s: Seq<u8>, t: u64)
    requires
        s.len() >= 15,
    ensures
        embedded_ts(put_ts(s, t)) == Some(t & 0xF_FFFF_FFFF),
        t < 0x10_0000_0000 ==> embedded_ts(put_ts(s, t)) == Some(t),
        put_ts(s, t).len() == s.len(),
        forall|i: int| 0 <= i < s.len() && !(10 <= i < 15) ==> put_ts(s, t)[i] == s[i],
{
    let r = put_ts(s, t);
    let b0 = ts_group(t, 0);
    let b1 = ts_group(t, 1);
    let b2 = ts_group(t, 2);
    let b3 = ts_group(t, 3);
    let b4 = ts_top(t);
    assert(r[10] == b0 && r[11] == b1 && r[12] == b2 && r[13] == b3 && r[14] == b4);
    assert((b0 as u64 & 0x7F) | ((b1 as u64 & 0x7F) << 7u64) | ((b2 as u64 & 0x7F) << 14u64) | ((
    b3 as u64 & 0x7F) << 21u64) | ((b4 as u64) << 28u64) == t & 0xF_FFFF_FFFF) by (bit_vector)
        requires
            b0 == (((t >> 0u64) & 0x7F) | 0x80) as u8,
            b1 == (((t >> 7u64) & 0x7F) | 0x80) as u8,
            b2 == (((t >> 14u64) & 0x7F) | 0x80) as u8,
            b3 == (((t >> 21u64) & 0x7F) | 0x80) as u8,
            b4 == (t >> 28u64) as u8,
    ;
    assert(t < 0x10_0000_0000 ==> t & 0xF_FFFF_FFFF == t) by (bit_vector);
}


/// The timestamp's byte layout, as the system reads it: byte `10 + k`
/// (`k < 4`) holds the 7 bits of weight `2^(7k)` with the high bit set, byte
/// 14 the bits from `2^28` up; reading weighs each byte's low 7 bits (all 8
/// for byte 14) the same way, lowest first.
pub proof fn lemma_timestamp_layout(s: Seq<u8>, t: u64)
    requires
        s.len() >= 15,
    ensures
        put_ts(s, t)[10] == t % 0x80 + 0x80,
        put_ts(s, t)[11] == (t / 0x80) % 0x80 + 0x80,
        put_ts(s, t)[12] == (t / 0x4000) % 0x80 + 0x80,
        put_ts(s, t)[13] == (t / 0x20_0000) % 0x80 + 0x80,
        put_ts(s, t)[14] == (t / 0x1000_0000) % 0x100,
        ts_value(s) == (s[10] % 0x80) + (s[11] % 0x80) * 0x80 + (s[12] % 0x80) * 0x4000 + (s[13]
            % 0x80) * 0x20_0000 + s[14] * 0x1000_0000,
{
    let r = put_ts(s, t);
    assert(r[10] == ts_group(t, 0) && r[11] == ts_group(t, 1) && r[12] == ts_group(t, 2) && r[13]
        == ts_group(t, 3) && r[14] == ts_top(t));
    let (g0, g1, g2, g3, g4) = (ts_group(t, 0), ts_group(t, 1), ts_group(t, 2), ts_group(t, 3), ts_top(t));
    assert(g0 == t % 0x80 + 0x80 && g1 == (t / 0x80) % 0x80 + 0x80 && g2 == (t / 0x4000) % 0x80
        + 0x80 && g3 == (t / 0x20_0000) % 0x80 + 0x80 && g4 == (t / 0x1000_0000) % 0x100) by (
    bit_vector)
        requires
            g0 == (((t >> 0u64) & 0x7F) | 0x80) as u8,
            g1 == (((t >> 7u64) & 0x7F) | 0x80) as u8,
            g2 == (((t >> 14u64) & 0x7F) | 0x80) as u8,
            g3 == (((t >> 21u64) & 0x7F) | 0x80) as u8,
            g4 == (t >> 28u64) as u8,
    ;
    let (b0, b1, b2, b3, b4) = (s[10], s[11], s[12], s[13], s[14]);
    assert((b0 as u64 & 0x7F) | ((b1 as u64 & 0x7F) << 7u64) | ((b2 as u64 & 0x7F) << 14u64) | ((
    b3 as u64 & 0x7F) << 21u64) | ((b4 as u64) << 28u64) == (b0 % 0x80) + (b1 % 0x80) * 0x80 + (
    b2 % 0x80) * 0x4000 + (b3 % 0x80) * 0x20_0000 + b4 * 0x1000_0000) by (bit_vector);
}

/// The timestamp a write stamps into a blob, given the one it held and the clock.
///
/// A plausible timestamp (2020 up to one day past `now`) advances to
/// `max(old + 1, now)`, so consecutive writes within one second still
/// increase strictly; a missing or implausible one (the all-`FF` reset mark,
/// a far-future value) is repaired to `now`.
pub open spec fn next_timestamp(old: Option<u64>, now: u64) -> u64 {
    match old {
        Some(t) => if UNIX_2020 <= t && t <= now + ONE_DAY {
            if t + 1 > now {
                (t + 1) as u64
            } else {
                now
            }
        } else {
            now
        },
        None => now,
    }
}

/// The blob after its timestamp has been advanced at clock value `now`.
pub open spec fn bumped(s: Seq<u8>, now: u64) -> Seq<u8> {
    put_ts(s, next_timestamp(embedded_ts(s), now))
}

/// Advances the embedded timestamp as `next_timestamp` says, at clock value `now`.
pub fn bump_timestamp_at(data: &mut Vec<u8>, now: u64)
    requires
        old(data).len() >= 15,
    ensures
        final(data)@ == bumped(old(data)@, now),
{
    let limit = now.saturating_add(ONE_DAY);
    let next = match embedded_timestamp(data.as_slice()) {
        Some(t) if UNIX_2020 <= t && t <= limit => {
            if t + 1 > now {
                t + 1
            } else {
                now
            }
        },
        _ => now,
    };
    encode_timestamp(data, next);
}

/// Advances the embedded timestamp at the current clock value.
pub fn bump_timestamp(data: &mut Vec<u8>)
    requires
        old(data).len() >= 15,
    ensures
        exists|now: u64| final(data)@ == #[trigger] bumped(old(data)@, now),
{
    let now = crate::clock::current_unix_secs();
    bump_timestamp_at(data, now);
}

/// A write never moves the timestamp behind the clock, moves a plausible one
/// strictly forward, repairs an implausible one to the clock, and touches no
/// byte outside 10..15.
pub proof fn lemma_bump_advances(s: Seq<u8>, now: u64)
    requires
        s.len() >= 15,
        now + ONE_DAY < 0xF_FFFF_FFFF,
    ensures
        embedded_ts(bumped(s, now)) == Some(next_timestamp(embedded_ts(s), now)),
        next_timestamp(embedded_ts(s), now) >= now,
        UNIX_2020 <= ts_value(s) <= now + ONE_DAY ==> ts_value(bumped(s, now)) > ts_value(s),
        !(UNIX_2020 <= ts_value(s) <= now + ONE_DAY) ==> ts_value(bumped(s, now)) == now,
        bumped(s, now).len() == s.len(),
        forall|i: int| 0 <= i < s.len() && !(10 <= i < 15) ==> bumped(s, now)[i] == s[i],
{
    lemma_ts_value_bound(s);
    lemma_timestamp_roundtrip(s, next_timestamp(embedded_ts(s), now));
}

// ---------------------------------------------------------------------------
// The on/off state blob
// ---------------------------------------------------------------------------

/// State byte value: Night Light on.
pub const STATE_ON: u8 = 0x15;
/// State byte value: Night Light off.
pub const STATE_OFF: u8 = 0x13;

/// Turning Night Light on or off in a state blob at clock value `now`:
/// the verdict (`None` = unknown layout, `Some(false)` = already so, `Some(true)` = flipped)
/// and the blob afterwards.
///
/// The state byte is byte 18; turning on inserts `10 00` at index 23 and
/// turning off removes it (refusing when those two bytes are not `10 00`,
/// after the timestamp and state byte have already been rewritten).
pub open spec fn toggle_spec(s: Seq<u8>, enable: bool, now: u64) -> (Option<bool>, Seq<u8>) {
    if s.len() < 25 {
        (None, s)
    } else if s[18] != STATE_ON && s[18] != STATE_OFF {
        (None, s)
    } else if (s[18] == STATE_ON) == enable {
        (Some(false), s)
    } else {
        let b = bumped(s, now).update(18, if enable { STATE_ON } else { STATE_OFF });
        if enable {
            (Some(true), b.take(23) + seq![0x10u8, 0x00u8] + b.skip(23))
        } else if b[23] != 0x10 || b[24] != 0x00 {
            (None, b)
        } else {
            (Some(true), b.take(23) + b.skip(25))
        }
    }
}

/// Turns Night Light on or off in a state blob, stamping clock value `now`.
pub fn toggle_state_blob_at(data: &mut Vec<u8>, enable: bool, now: u64) -> (r: Option<bool>)
    ensures
        (r, final(data)@) == toggle_spec(old(data)@, enable, now),
{
    if data.len() < 25 {
        return None;
    }
    let currently_on = if data[18] == STATE_ON {
        true
    } else if data[18] == STATE_OFF {
        false
    } else {
        return None;
    };
    if currently_on == enable {
        return Some(false);
    }
    bump_timestamp_at(data, now);
    data.set(18, if enable { STATE_ON } else { STATE_OFF });
    let ghost b = data@;
    if enable {
        data.insert(23, 0x10);
        data.insert(24, 0x00);
        assert(data@ =~= b.take(23) + seq![0x10u8, 0x00u8] + b.skip(23));
    } else {
        if data[23] != 0x10 || data[24] != 0x00 {
            return None;
        }
        data.remove(23);
        data.remove(23);
        assert(data@ =~= b.take(23) + b.skip(25));
    }
    Some(true)
}

/// Turns Night Light on or off in a state blob at the current clock value.
/// Already in the asked state: `Some(false)`, blob untouched.
pub fn toggle_state_blob(data: &mut Vec<u8>, enable: bool) -> (r: Option<bool>)
    ensures
        exists|now: u64| (r, final(data)@) == #[trigger] toggle_spec(old(data)@, enable, now),
{
    let now = crate::clock::current_unix_secs();
    toggle_state_blob_at(data, enable, now)
}

/// Turning Night Light on and then off again gives back the blob it started
/// from, but for the timestamp bytes 10..15.
pub proof fn lemma_toggle_roundtrip(s: Seq<u8>, on_at: u64, off_at: u64)
    requires
        s.len() >= 25,
        s[18] == STATE_OFF,
    ensures
        ({
            let (r1, s1) = toggle_spec(s, true, on_at);
            let (r2, s2) = toggle_spec(s1, false, off_at);
            &&& r1 == Some(true)
            &&& s1.len() == s.len() + 2
            &&& s1[18] == STATE_ON
            &&& r2 == Some(true)
            &&& s2.len() == s.len()
            &&& forall|i: int| 0 <= i < s.len() && !(10 <= i < 15) ==> s2[i] == s[i]
        }),
{
    let b1 = bumped(s, on_at).update(18, STATE_ON);
    lemma_timestamp_roundtrip(s, next_timestamp(embedded_ts(s), on_at));
    let s1 = b1.take(23) + seq![0x10u8, 0x00u8] + b1.skip(23);
    assert(s1[18] == STATE_ON);
    assert(s1[23] == 0x10 && s1[24] == 0x00);
    let b2 = bumped(s1, off_at).update(18, STATE_OFF);
    lemma_timestamp_roundtrip(s1, next_timestamp(embedded_ts(s1), off_at));
    assert(b2[23] == 0x10 && b2[24] == 0x00);
    let s2 = b2.take(23) + b2.skip(25);
    assert forall|i: int| 0 <= i < s.len() && !(10 <= i < 15) implies s2[i] == s[i] by {
        if i < 23 {
            assert(s2[i] == b2[i]);
        } else {
            assert(s2[i] == b2[i + 2]);
            assert(b2[i + 2] == s1[i + 2]);
            assert(s1[i + 2] == b1[i]);
        }
    }
}

/// Asking for the state a blob is already in leaves it untouched.
pub proof fn lemma_toggle_idempotent(s: Seq<u8>, enable: bool, now: u64)
    requires
        s.len() >= 25,
        s[18] == (if enable { STATE_ON } else { STATE_OFF }),
    ensures
        toggle_spec(s, enable, now) == (Some(false), s),
{
}


// ---------------------------------------------------------------------------
// Colour temperature bytes
// ---------------------------------------------------------------------------

/// Low byte of the stored colour temperature: the low 6 bits, shifted left, high bit set.
pub open spec fn kelvin_lo(k: u32) -> u8 {
    (((k & 0x3F) << 1u32) | 0x80) as u8
}

/// High byte of the stored colour temperature: the bits from 6 up, truncated to a byte.
pub open spec fn kelvin_hi(k: u32) -> u8 {
    (k >> 6u32) as u8
}

/// The colour temperature two stored bytes stand for.
pub open spec fn kelvin_of(lo: u8, hi: u8) -> u32 {
    ((lo >> 1u8) as u32 & 0x3F) | ((hi as u32) << 6u32)
}

/// Encodes a colour temperature as its two stored bytes.
pub fn encode_kelvin(k: u32) -> (r: (u8, u8))
    ensures
        r == (kelvin_lo(k), kelvin_hi(k)),
{
    ((((k & 0x3F) << 1u32) | 0x80) as u8, (k >> 6u32) as u8)
}

/// Decodes two stored bytes into a colour temperature.
pub fn decode_kelvin(lo: u8, hi: u8) -> (k: u32)
    ensures
        k == kelvin_of(lo, hi),
        k < 0x4000,
{
    assert(((lo >> 1u8) as u32 & 0x3F) | ((hi as u32) << 6u32) < 0x4000) by (bit_vector);
    ((lo >> 1u8) as u32 & 0x3F) | ((hi as u32) << 6u32)
}

/// Decoding the encoding of `k` gives back its low 14 bits, so every colour
/// temperature below 16384 K (all of 1200–6500 K) survives the trip.
pub proof fn lemma_kelvin_roundtrip(k: u32)
    ensures
        kelvin_of(kelvin_lo(k), kelvin_hi(k)) == k & 0x3FFF,
        k < 0x4000 ==> kelvin_of(kelvin_lo(k), kelvin_hi(k)) == k,
{
    let lo = kelvin_lo(k);
    let hi = kelvin_hi(k);
    assert(((lo >> 1u8) as u32 & 0x3F) | ((hi as u32) << 6u32) == k & 0x3FFF) by (bit_vector)
        requires
            lo == (((k & 0x3F) << 1u32) | 0x80) as u8,
            hi == (k >> 6u32) as u8,
    ;
    assert(k < 0x4000 ==> k & 0x3FFF == k) by (bit_vector);
}

// ---------------------------------------------------------------------------
// Settings blobs
// ---------------------------------------------------------------------------

/// Index of the low colour-temperature byte: right after the first `CF 28`
/// pair, provided both value bytes are inside the blob.
pub open spec fn temp_marker(s: Seq<u8>) -> Option<int> {
    match first_pair_from(s, 0xCF, 0x28, 0) {
        Some(i) => if i + 3 < s.len() {
            Some(i + 2)
        } else {
            None
        },
        None => None,
    }
}

/// The position of the `a b` pair when exactly one such pair occurs in `s`.
pub open spec fn unique_pair(s: Seq<u8>, a: u8, b: u8) -> Option<int> {
    match first_pair_from(s, a, b, 0) {
        Some(p) => if first_pair_from(s, a, b, (p + 1) as nat) is None {
            Some(p)
        } else {
            None
        },
        None => None,
    }
}

/// Locates the `CF 28` colour-temperature field; returns the index of its low value byte.
pub fn find_temp_marker(data: &[u8]) -> (r: Option<usize>)
    ensures
        match r {
            Some(i) => temp_marker(data@) == Some(i as int),
            None => temp_marker(data@) is None,
        },
{
    match find_pair_from(data, 0xCF, 0x28, 0) {
        Some(i) => {
            proof {
                lemma_first_pair_from(data@, 0xCF, 0x28, 0);
            }
            if data.len() - i > 3 {
                Some(i + 2)
            } else {
                None
            }
        },
        None => None,
    }
}

/// Bytes 10..15 all `FF`, in a blob longer than 15 bytes: the system's
/// conflict-reset mark, whose value is not to be trusted.
pub open spec fn is_reset(s: Seq<u8>) -> bool {
    s.len() > 15 && forall|i: int| 10 <= i < 15 ==> s[i] == 0xFF
}

/// Only the complete mark is a reset: all five timestamp bytes `FF`.  A
/// single `FF` byte (a 7-bit group of all ones, common in genuine
/// timestamps) is not; so no timestamp below `FF << 28` that a write stamps
/// ever reads as the mark.
pub proof fn lemma_reset_mark(s: Seq<u8>, t: u64)
    ensures
        is_reset(s) <==> (s.len() > 15 && s[10] == 0xFF && s[11] == 0xFF && s[12] == 0xFF && s[13]
            == 0xFF && s[14] == 0xFF),
        s.len() > 15 && s[14] != 0xFF ==> !is_reset(s),
        s.len() > 15 && t < 0xF_F000_0000 ==> !is_reset(put_ts(s, t)),
{
    if s.len() > 15 && s[10] == 0xFF && s[11] == 0xFF && s[12] == 0xFF && s[13] == 0xFF && s[14]
        == 0xFF {
        assert forall|i: int| 10 <= i < 15 implies s[i] == 0xFF by {
            assert(i == 10 || i == 11 || i == 12 || i == 13 || i == 14);
        }
    }
    if s.len() > 15 {
        let r = put_ts(s, t);
        assert(r[14] == ts_top(t));
        let g4 = ts_top(t);
        assert(t < 0xF_F000_0000 ==> g4 != 0xFFu8) by (bit_vector)
            requires
                g4 == (t >> 28u64) as u8,
        ;
    }
}

/// Whether the blob carries the conflict-reset mark.
pub fn is_reset_blob(data: &[u8]) -> (r: bool)
    ensures
        r == is_reset(data@),
{
    if data.len() <= 15 {
        return false;
    }
    let mut i: usize = 10;
    while i < 15
        invariant
            10 <= i <= 15,
            data@.len() > 15,
            forall|j: int| 10 <= j < i ==> data@[j] == 0xFF,
        decreases 15 - i,
    {
        if data[i] != 0xFF {
            return false;
        }
        i = i + 1;
    }
    true
}

/// The layout every known settings blob shares: 32–64 bytes, starting `43 42 01 00`.
pub open spec fn structure_known(s: Seq<u8>) -> bool {
    &&& 32 <= s.len() <= 64
    &&& s[0] == 0x43 && s[1] == 0x42 && s[2] == 0x01 && s[3] == 0x00
}

/// Checks a settings blob against the known layout before anything is written to it.
pub fn structure_ok(data: &[u8]) -> (r: bool)
    ensures
        r == structure_known(data@),
{
    32 <= data.len() && data.len() <= 64 && data[0] == 0x43 && data[1] == 0x42 && data[2] == 0x01
        && data[3] == 0x00
}

/// The edit that sets colour temperature `k`, before the timestamp is advanced.
///
/// An existing `CF 28` field is rewritten in place.  Without one, the field
/// `CF 28 lo hi` is inserted before the only `CA 32` field, and a state byte
/// 18 of `15` becomes `19` (the value the system writes with the first
/// temperature).  No `CF 28` and not exactly one `CA 32`: unknown layout, `None`.
pub open spec fn kelvin_edit(s: Seq<u8>, k: u32) -> Option<Seq<u8>> {
    match temp_marker(s) {
        Some(idx) => Some(s.update(idx, kelvin_lo(k)).update(idx + 1, kelvin_hi(k))),
        None => match unique_pair(s, 0xCA, 0x32) {
            Some(p) => {
                let t = s.take(p) + seq![0xCFu8, 0x28u8, kelvin_lo(k), kelvin_hi(k)] + s.skip(p);
                Some(
                    if t.len() > 18 && t[18] == 0x15 {
                        t.update(18, 0x19)
                    } else {
                        t
                    },
                )
            },
            None => None,
        },
    }
}

/// The edit for `k` when it leaves a blob long enough (15 bytes) to hold the
/// timestamp it must then be stamped with; `None` otherwise, as for an
/// unknown layout.
pub open spec fn kelvin_edit_stampable(s: Seq<u8>, k: u32) -> Option<Seq<u8>> {
    match kelvin_edit(s, k) {
        Some(e) => if e.len() >= 15 {
            Some(e)
        } else {
            None
        },
        None => None,
    }
}

/// The edit keeps the length of a blob with a temperature field and adds the
/// four field bytes otherwise; so a blob of at least 15 bytes can always be stamped.
pub proof fn lemma_edit_len(s: Seq<u8>, k: u32)
    requires
        kelvin_edit(s, k) is Some,
    ensures
        temp_marker(s) is Some ==> kelvin_edit(s, k)->0.len() == s.len(),
        temp_marker(s) is None ==> kelvin_edit(s, k)->0.len() == s.len() + 4,
        s.len() >= 15 ==> kelvin_edit_stampable(s, k) == kelvin_edit(s, k),
{
    lemma_first_pair_from(s, 0xCF, 0x28, 0);
    lemma_first_pair_from(s, 0xCA, 0x32, 0);
}

/// Writes colour temperature `k` into a settings blob and advances its
/// timestamp at clock value `now`.  Returns false, leaving the blob as it was,
/// when the layout is not recognised or the blob is too short for its timestamp.
pub fn set_kelvin_in_blob_at(data: &mut Vec<u8>, kelvin: u32, now: u64) -> (r: bool)
    ensures
        match kelvin_edit_stampable(old(data)@, kelvin) {
            Some(e) => r && final(data)@ == bumped(e, now),
            None => !r && final(data)@ == old(data)@,
        },
        r && temp_marker(old(data)@) is Some ==> final(data)@.len() == old(data)@.len(),
        r && temp_marker(old(data)@) is None ==> final(data)@.len() == old(data)@.len() + 4,
{
    let (lo, hi) = encode_kelvin(kelvin);
    let len = data.len();
    match find_temp_marker(data.as_slice()) {
        Some(idx) => {
            if len < 15 {
                return false;
            }
            assert(idx + 1 < len);
            data.set(idx, lo);
            data.set(idx + 1, hi);
        },
        None => {
            let pos = match find_pair_from(data.as_slice(), 0xCA, 0x32, 0) {
                Some(p) => p,
                None => return false,
            };
            proof {
                lemma_first_pair_from(data@, 0xCA, 0x32, 0);
                assert(pair_at(data@, pos as int, 0xCA, 0x32));
                assert(pos + 1 < len);
            }
            if find_pair_from(data.as_slice(), 0xCA, 0x32, pos + 1).is_some() {
                return false;
            }
            if len < 11 {
                return false;
            }
            let ghost s = data@;
            data.insert(pos, hi);
            data.insert(pos, lo);
            data.insert(pos, 0x28);
            data.insert(pos, 0xCF);
            assert(data@ =~= s.take(pos as int) + seq![0xCFu8, 0x28u8, lo, hi] + s.skip(
                pos as int,
            ));
            if data.len() > 18 && data[18] == 0x15 {
                data.set(18, 0x19);
            }
        },
    }
    bump_timestamp_at(data, now);
    true
}

/// Writes colour temperature `k` into a settings blob at the current clock value.
pub fn set_kelvin_in_blob(data: &mut Vec<u8>, kelvin: u32) -> (r: bool)
    ensures
        match kelvin_edit_stampable(old(data)@, kelvin) {
            Some(e) => r && exists|now: u64| final(data)@ == #[trigger] bumped(e, now),
            None => !r && final(data)@ == old(data)@,
        },
        r && temp_marker(old(data)@) is Some ==> final(data)@.len() == old(data)@.len(),
        r && temp_marker(old(data)@) is None ==> final(data)@.len() == old(data)@.len() + 4,
{
    let now = crate::clock::current_unix_secs();
    set_kelvin_in_blob_at(data, kelvin, now)
}


/// The blob holds colour temperature `k` in its `CF 28` field.
pub open spec fn holds_kelvin(s: Seq<u8>, k: u32) -> bool {
    temp_marker(s) matches Some(m) && s[m] == kelvin_lo(k) && s[m + 1] == kelvin_hi(k)
}

/// Whether the blob's `CF 28` field holds colour temperature `k` (the
/// read-back check after a write).
pub fn blob_holds_kelvin(data: &[u8], kelvin: u32) -> (r: bool)
    ensures
        r == holds_kelvin(data@, kelvin),
{
    let (lo, hi) = encode_kelvin(kelvin);
    match find_temp_marker(data) {
        Some(i) => data[i] == lo && data[i + 1] == hi,
        None => false,
    }
}

/// Index of the low value byte of the field the edit for `k` writes.
pub open spec fn edit_field(s: Seq<u8>) -> Option<int> {
    match temp_marker(s) {
        Some(idx) => Some(idx),
        None => match unique_pair(s, 0xCA, 0x32) {
            Some(p) => Some(p + 2),
            None => None,
        },
    }
}

/// No `CF 28` pair starts before `pos` in a blob without a usable
/// temperature field whose only `CA 32` pair is at `pos`.
proof fn lemma_no_marker_before(s: Seq<u8>, pos: int)
    requires
        temp_marker(s) is None,
        unique_pair(s, 0xCA, 0x32) == Some(pos),
    ensures
        forall|j: int| j < pos ==> !#[trigger] pair_at(s, j, 0xCF, 0x28),
{
    lemma_first_pair_from(s, 0xCA, 0x32, 0);
    lemma_first_pair_from(s, 0xCF, 0x28, 0);
    match first_pair_from(s, 0xCF, 0x28, 0) {
        Some(i) => {
            assert(i + 3 >= s.len());
            assert(pair_at(s, pos, 0xCA, 0x32));
            if i < pos {
                assert(s[i + 1] == 0x28);
                assert(false);
            }
        },
        None => {},
    }
}

/// The edit puts `k` into the field `edit_field` names, and that field is the
/// first `CF 28` field of the edited blob — unless the inserted high byte lands
/// on byte 18 as `15`, where the state-byte rewrite to `19` overwrites it.
pub proof fn lemma_edit_writes_field(s: Seq<u8>, k: u32)
    requires
        kelvin_edit(s, k) is Some,
        !(temp_marker(s) is None && unique_pair(s, 0xCA, 0x32) == Some(15int) && kelvin_hi(k)
            == 0x15),
    ensures
        ({
            let e = kelvin_edit(s, k)->0;
            &&& temp_marker(e) == edit_field(s)
            &&& holds_kelvin(e, k)
        }),
{
    let e = kelvin_edit(s, k)->0;
    lemma_first_pair_from(s, 0xCF, 0x28, 0);
    match temp_marker(s) {
        Some(idx) => {
            let i = idx - 2;
            assert(pair_at(e, i, 0xCF, 0x28));
            assert forall|j: int| 0 <= j < i implies !#[trigger] pair_at(e, j, 0xCF, 0x28) by {
                assert(!pair_at(s, j, 0xCF, 0x28));
            }
            lemma_first_pair_is(e, 0xCF, 0x28, 0, i);
        },
        None => {
            let pos = unique_pair(s, 0xCA, 0x32)->0;
            lemma_first_pair_from(s, 0xCA, 0x32, 0);
            assert(pair_at(s, pos, 0xCA, 0x32));
            lemma_no_marker_before(s, pos);
            let t = s.take(pos) + seq![0xCFu8, 0x28u8, kelvin_lo(k), kelvin_hi(k)] + s.skip(pos);
            assert(kelvin_lo(k) != 0x15u8) by {
                assert((((k & 0x3F) << 1u32) | 0x80) as u8 != 0x15u8) by (bit_vector);
            }
            assert(e[pos] == 0xCF && e[pos + 1] == 0x28);
            assert(e[pos + 2] == kelvin_lo(k) && e[pos + 3] == kelvin_hi(k));
            assert forall|j: int| 0 <= j < pos implies !#[trigger] pair_at(e, j, 0xCF, 0x28) by {
                if j + 1 < pos {
                    assert(t[j] == s[j] && t[j + 1] == s[j + 1]);
                    assert(!pair_at(s, j, 0xCF, 0x28));
                }
            }
            lemma_first_pair_is(e, 0xCF, 0x28, 0, pos);
        },
    }
}

/// No `CF 28` pair can start at bytes 9..13 of a blob whose timestamp was just
/// written, but the one at 13 that the last two timestamp bytes may form.
proof fn lemma_no_pair_in_timestamp(s: Seq<u8>, t: u64, j: int)
    requires
        s.len() >= 15,
        9 <= j <= 12,
    ensures
        !pair_at(put_ts(s, t), j, 0xCF, 0x28),
{
    let r = put_ts(s, t);
    let k = (j - 9) as u64;
    assert(r[j + 1] == ts_group(t, k));
    let g = ts_group(t, k);
    assert(g == (((t >> (7 * k)) & 0x7F) | 0x80) as u8);
    let x = t >> (7 * k);
    assert((((x & 0x7F) | 0x80) as u8) != 0x28u8) by (bit_vector);
}

/// What a write stores is what the read-back check finds: after the edit for
/// `k` and the timestamp advance, the blob holds `k` — provided the field
/// lies past the timestamp bytes (index 17 on) and the new timestamp bytes do
/// not themselves form a `CF 28` pair at 13 or 14.
pub proof fn lemma_kelvin_write_reads_back(s: Seq<u8>, k: u32, now: u64)
    requires
        kelvin_edit(s, k) is Some,
        edit_field(s) matches Some(m) && m >= 17,
        !(temp_marker(s) is None && unique_pair(s, 0xCA, 0x32) == Some(15int) && kelvin_hi(k)
            == 0x15),
        !pair_at(bumped(kelvin_edit(s, k)->0, now), 13, 0xCF, 0x28),
        !pair_at(bumped(kelvin_edit(s, k)->0, now), 14, 0xCF, 0x28),
    ensures
        holds_kelvin(bumped(kelvin_edit(s, k)->0, now), k),
{
    let e = kelvin_edit(s, k)->0;
    lemma_edit_writes_field(s, k);
    let m = edit_field(s)->0;
    let t = next_timestamp(embedded_ts(e), now);
    let r = bumped(e, now);
    lemma_timestamp_roundtrip(e, t);
    lemma_first_pair_from(e, 0xCF, 0x28, 0);
    let i = m - 2;
    assert(pair_at(r, i, 0xCF, 0x28));
    assert forall|j: int| 0 <= j < i implies !#[trigger] pair_at(r, j, 0xCF, 0x28) by {
        if 9 <= j <= 12 {
            lemma_no_pair_in_timestamp(e, t, j);
        } else if j < 9 || j > 14 {
            assert(!pair_at(e, j, 0xCF, 0x28));
            assert(r[j] == e[j] && r[j + 1] == e[j + 1]);
        }
    }
    lemma_first_pair_is(r, 0xCF, 0x28, 0, i);
}


// ---------------------------------------------------------------------------
// Settings blob template
// ---------------------------------------------------------------------------

/// A complete settings blob for colour temperature `k` (schedule off,
/// 0:00–0:00 placeholders), with a zero timestamp.
pub open spec fn template_base(k: u32) -> Seq<u8> {
    seq![
        0x43u8, 0x42u8, 0x01u8, 0x00u8, 0x0Au8, 0x02u8, 0x01u8, 0x00u8,
        0x2Au8, 0x06u8, 0x00u8, 0x00u8, 0x00u8, 0x00u8, 0x00u8, 0x2Au8,
        0x2Bu8, 0x0Eu8, 0x1Du8, 0x43u8, 0x42u8, 0x01u8, 0x00u8, 0xCAu8,
        0x14u8, 0x0Eu8, 0x00u8, 0x2Eu8, 0x00u8, 0x00u8, 0xCAu8, 0x1Eu8,
        0x0Eu8, 0x00u8, 0x2Eu8, 0x00u8, 0x00u8, 0xCFu8, 0x28u8, kelvin_lo(k),
        kelvin_hi(k), 0xCAu8, 0x32u8, 0x00u8, 0xCAu8, 0x3Cu8, 0x00u8, 0x00u8,
        0x00u8, 0x00u8, 0x00u8,
    ]
}

/// The settings blob written when none exists yet, stamped with `now`.
pub open spec fn template(k: u32, now: u64) -> Seq<u8> {
    put_ts(template_base(k), now)
}

/// Builds the settings blob for colour temperature `kelvin`, stamped with `now`.
pub fn build_settings_template_at(kelvin: u32, now: u64) -> (d: Vec<u8>)
    ensures
        d@ == template(kelvin, now),
{
    let (lo, hi) = encode_kelvin(kelvin);
    let mut d: Vec<u8> = vec![
        0x43, 0x42, 0x01, 0x00, 0x0A, 0x02, 0x01, 0x00,
        0x2A, 0x06, 0x00, 0x00, 0x00, 0x00, 0x00, 0x2A,
        0x2B, 0x0E, 0x1D, 0x43, 0x42, 0x01, 0x00, 0xCA,
        0x14, 0x0E, 0x00, 0x2E, 0x00, 0x00, 0xCA, 0x1E,
        0x0E, 0x00, 0x2E, 0x00, 0x00, 0xCF, 0x28, lo,
        hi, 0xCA, 0x32, 0x00, 0xCA, 0x3C, 0x00, 0x00,
        0x00, 0x00, 0x00,
    ];
    assert(d@ =~= template_base(kelvin));
    encode_timestamp(&mut d, now);
    d
}

/// Builds the settings blob for colour temperature `kelvin` at the current clock value.
pub fn build_settings_template(kelvin: u32) -> (d: Vec<u8>)
    ensures
        exists|now: u64| d@ == #[trigger] template(kelvin, now),
{
    let now = crate::clock::current_unix_secs();
    build_settings_template_at(kelvin, now)
}

/// The template has the known settings layout, 51 bytes long.
pub proof fn lemma_template_known(k: u32, now: u64)
    ensures
        structure_known(template(k, now)),
        template(k, now).len() == 51,
{
    let b = template_base(k);
    assert(b.len() == 51);
    lemma_timestamp_roundtrip(b, now);
    assert(b[0] == 0x43 && b[1] == 0x42 && b[2] == 0x01 && b[3] == 0x00);
}

/// The template reads back as colour temperature `k` (its low 14 bits) —
/// unless the timestamp bytes 13 and 14 happen to spell `CF 28`.
pub proof fn lemma_template_parses_back(k: u32, now: u64)
    requires
        !(ts_group(now, 3) == 0xCF && ts_top(now) == 0x28),
    ensures
        temp_marker(template(k, now)) == Some(39int),
        holds_kelvin(template(k, now), k),
        kelvin_of(template(k, now)[39], template(k, now)[40]) == k & 0x3FFF,
{
    let b = template_base(k);
    let t = template(k, now);
    assert(b.len() == 51);
    lemma_timestamp_roundtrip(b, now);
    assert(t[0] != 0xCF);
    assert(t[1] != 0xCF);
    assert(t[2] != 0xCF);
    assert(t[3] != 0xCF);
    assert(t[4] != 0xCF);
    assert(t[5] != 0xCF);
    assert(t[6] != 0xCF);
    assert(t[7] != 0xCF);
    assert(t[8] != 0xCF);
    assert(t[15] != 0xCF);
    assert(t[16] != 0xCF);
    assert(t[17] != 0xCF);
    assert(t[18] != 0xCF);
    assert(t[19] != 0xCF);
    assert(t[20] != 0xCF);
    assert(t[21] != 0xCF);
    assert(t[22] != 0xCF);
    assert(t[23] != 0xCF);
    assert(t[24] != 0xCF);
    assert(t[25] != 0xCF);
    assert(t[26] != 0xCF);
    assert(t[27] != 0xCF);
    assert(t[28] != 0xCF);
    assert(t[29] != 0xCF);
    assert(t[30] != 0xCF);
    assert(t[31] != 0xCF);
    assert(t[32] != 0xCF);
    assert(t[33] != 0xCF);
    assert(t[34] != 0xCF);
    assert(t[35] != 0xCF);
    assert(t[36] != 0xCF);
    assert(t[37] == 0xCF && t[38] == 0x28 && t[39] == kelvin_lo(k) && t[40] == kelvin_hi(k));
    assert forall|j: int| 0 <= j < 37 implies !#[trigger] pair_at(t, j, 0xCF, 0x28) by {
        if 9 <= j <= 12 {
            lemma_no_pair_in_timestamp(b, now, j);
        }
    }
    assert(pair_at(t, 37, 0xCF, 0x28));
    lemma_first_pair_is(t, 0xCF, 0x28, 0, 37);
    lemma_kelvin_roundtrip(k);
}


// ---------------------------------------------------------------------------
// Per-device blob with a repaired timestamp
// ---------------------------------------------------------------------------

/// The per-device blob after its reset timestamp (if any) is repaired to
/// `repair_now`, colour temperature `k` is written in place and the timestamp
/// is advanced at `bump_now`.  `None` — nothing to write — when the blob does
/// not have the known settings layout or has no usable `CF 28` field.
pub open spec fn repaired_kelvin_spec(s: Seq<u8>, k: u32, repair_now: u64, bump_now: u64) -> Option<
    Seq<u8>,
> {
    if !structure_known(s) {
        None
    } else {
        match temp_marker(s) {
        Some(idx) => {
            let s1 = if is_reset(s) {
                put_ts(s, repair_now)
            } else {
                s
            };
            Some(bumped(s1.update(idx, kelvin_lo(k)).update(idx + 1, kelvin_hi(k)), bump_now))
        },
        None => None,
        }
    }
}

/// Repairs a reset timestamp, writes colour temperature `k` in place and
/// advances the timestamp, at the given clock values.
pub fn repair_and_set_kelvin_at(data: Vec<u8>, kelvin: u32, repair_now: u64, bump_now: u64) -> (r:
    Option<Vec<u8>>)
    ensures
        match r {
            Some(d) => repaired_kelvin_spec(data@, kelvin, repair_now, bump_now) == Some(d@),
            None => repaired_kelvin_spec(data@, kelvin, repair_now, bump_now) is None,
        },
{
    let mut data = data;
    if !structure_ok(data.as_slice()) {
        return None;
    }
    let idx = match find_temp_marker(data.as_slice()) {
        Some(i) => i,
        None => return None,
    };
    let len = data.len();
    if is_reset_blob(data.as_slice()) {
        encode_timestamp(&mut data, repair_now);
    }
    let (lo, hi) = encode_kelvin(kelvin);
    assert(idx + 1 < len);
    data.set(idx, lo);
    data.set(idx + 1, hi);
    bump_timestamp_at(&mut data, bump_now);
    Some(data)
}

/// Repairs a reset timestamp, writes colour temperature `k` in place and
/// advances the timestamp, reading the clock for each.
pub fn repair_and_set_kelvin(data: Vec<u8>, kelvin: u32) -> (r: Option<Vec<u8>>)
    ensures
        match r {
            Some(d) => exists|n1: u64, n2: u64|
                #[trigger] repaired_kelvin_spec(data@, kelvin, n1, n2) == Some(d@),
            None => forall|n1: u64, n2: u64|
                #[trigger] repaired_kelvin_spec(data@, kelvin, n1, n2) is None,
        },
{
    let repair_now = crate::clock::current_unix_secs();
    let bump_now = crate::clock::current_unix_secs();
    repair_and_set_kelvin_at(data, kelvin, repair_now, bump_now)
}

} // verus!
