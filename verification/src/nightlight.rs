//! Night Light on the CloudStore registry blobs: the strength scale, reading
//! state and strength out of blobs, and what to write where.
//!
//! The host reads and writes the registry; each function here takes what was
//! read and returns what to write (or whether a read-back confirms a write).

use vstd::prelude::*;
use crate::blob::{
    blob_holds_kelvin, build_settings_template_at, bumped, decode_kelvin, find_temp_marker,
    holds_kelvin, is_reset, is_reset_blob, kelvin_edit, kelvin_of, set_kelvin_in_blob_at,
    structure_known, structure_ok, template, temp_marker, toggle_spec, toggle_state_blob_at,
    repaired_kelvin_spec, repair_and_set_kelvin, unique_pair, lemma_edit_len,
    lemma_timestamp_roundtrip, next_timestamp, embedded_ts, lemma_first_pair_from, pair_at,
    kelvin_lo, kelvin_hi,
};
use crate::text::{
    chars_from, chars_of, contains_seq, ends_with, find_char_from, first_index_from, has_substr, join_key,
    join_key_spec, same_chars, starts_with,
};

verus! {

/// Colour temperature at full strength.
pub const MIN_KELVIN: u32 = 1200;
/// Colour temperature at zero strength.
pub const MAX_KELVIN: u32 = 6500;

// ---------------------------------------------------------------------------
// Strength scale
// ---------------------------------------------------------------------------

/// Strength 0–100 (values above 100 count as 100) mapped linearly onto
/// 6500–1200 K: the stronger, the warmer.
pub open spec fn strength_kelvin(strength: u32) -> u32 {
    let s = if strength > 100 {
        100
    } else {
        strength
    };
    (MAX_KELVIN - s * (MAX_KELVIN - MIN_KELVIN) / 100) as u32
}

/// Colour temperature (clamped to 1200–6500 K) mapped back onto strength 0–100.
pub open spec fn kelvin_strength(kelvin: u32) -> u32 {
    let k = if kelvin < MIN_KELVIN {
        MIN_KELVIN
    } else if kelvin > MAX_KELVIN {
        MAX_KELVIN
    } else {
        kelvin
    };
    ((MAX_KELVIN - k) * 100 / (MAX_KELVIN - MIN_KELVIN)) as u32
}

/// Strength 0–100 to colour temperature.
pub fn strength_to_kelvin(strength: u32) -> (k: u32)
    ensures
        k == strength_kelvin(strength),
        MIN_KELVIN <= k <= MAX_KELVIN,
{
    let s = if strength > 100 {
        100
    } else {
        strength
    };
    assert(s * 5300 / 100 <= 5300) by (nonlinear_arith)
        requires
            s <= 100,
    ;
    MAX_KELVIN - s * (MAX_KELVIN - MIN_KELVIN) / 100
}

/// Colour temperature to strength 0–100.
pub fn kelvin_to_strength(kelvin: u32) -> (s: u32)
    ensures
        s == kelvin_strength(kelvin),
        s <= 100,
{
    let k = if kelvin < MIN_KELVIN {
        MIN_KELVIN
    } else if kelvin > MAX_KELVIN {
        MAX_KELVIN
    } else {
        kelvin
    };
    assert((6500 - k) * 100 / 5300 <= 100) by (nonlinear_arith)
        requires
            1200 <= k <= 6500,
    ;
    (MAX_KELVIN - k) * 100 / (MAX_KELVIN - MIN_KELVIN)
}

/// Strength to colour temperature and back gives the strength again (capped at 100).
pub proof fn lemma_strength_roundtrip(strength: u32)
    ensures
        kelvin_strength(strength_kelvin(strength)) == if strength > 100 {
            100
        } else {
            strength
        },
{
    let s: int = if strength > 100 {
        100
    } else {
        strength as int
    };
    assert(s * 5300 / 100 == 53 * s) by (nonlinear_arith)
        requires
            0 <= s <= 100,
    ;
    assert((53 * s) * 100 / 5300 == s) by (nonlinear_arith)
        requires
            0 <= s <= 100,
    ;
}

/// A stronger setting never gives a colder colour temperature.
pub proof fn lemma_strength_monotone(a: u32, b: u32)
    requires
        a <= b,
    ensures
        strength_kelvin(a) >= strength_kelvin(b),
{
    let sa: int = if a > 100 {
        100
    } else {
        a as int
    };
    let sb: int = if b > 100 {
        100
    } else {
        b as int
    };
    assert(sa * 5300 / 100 <= sb * 5300 / 100) by (nonlinear_arith)
        requires
            0 <= sa <= sb <= 100,
    ;
}

// ---------------------------------------------------------------------------
// On/off state
// ---------------------------------------------------------------------------

/// Night Light state a state blob records: byte 18 is `15` (on) or `13` (off).
pub open spec fn state_of(s: Seq<u8>) -> Option<bool> {
    if s.len() <= 18 {
        None
    } else if s[18] == 0x15 {
        Some(true)
    } else if s[18] == 0x13 {
        Some(false)
    } else {
        None
    }
}

/// Night Light state recorded in the state blob that was read (`None` when
/// the value is missing or its layout is unknown).
pub fn get_enabled(state: Option<Vec<u8>>) -> (r: Option<bool>)
    ensures
        r == match state {
            Some(d) => state_of(d@),
            None => None,
        },
{
    match state {
        Some(d) => {
            if d.len() <= 18 {
                None
            } else if d[18] == 0x15 {
                Some(true)
            } else if d[18] == 0x13 {
                Some(false)
            } else {
                None
            }
        },
        None => None,
    }
}

/// The state blob to write to turn Night Light on or off, given the one that
/// was read, stamped at clock value `now`; `None` (report failure) when
/// nothing was read or its layout is unknown.  A blob already in the asked
/// state is written back unchanged.
pub fn set_enabled_at(current: Option<Vec<u8>>, enable: bool, now: u64) -> (r: Option<Vec<u8>>)
    ensures
        match current {
            None => r is None,
            Some(d) => match toggle_spec(d@, enable, now) {
                (None, _) => r is None,
                (Some(_), after) => r matches Some(w) && w@ == after,
            },
        },
{
    match current {
        None => None,
        Some(d) => {
            let mut d = d;
            match toggle_state_blob_at(&mut d, enable, now) {
                None => None,
                Some(_) => Some(d),
            }
        },
    }
}

/// The state blob to write to turn Night Light on or off, at the current clock value.
pub fn set_enabled(current: Option<Vec<u8>>, enable: bool) -> (r: Option<Vec<u8>>)
    ensures
        match current {
            None => r is None,
            Some(d) => exists|now: u64|
                {
                    let t = #[trigger] toggle_spec(d@, enable, now);
                    match t {
                        (None, _) => r is None,
                        (Some(_), after) => r matches Some(w) && w@ == after,
                    }
                },
        },
{
    let ghost cur = current;
    let now = crate::clock::current_unix_secs();
    let r = set_enabled_at(current, enable, now);
    proof {
        if let Some(d) = cur {
            let t = toggle_spec(d@, enable, now);
        }
    }
    r
}

/// What an on/off write stores is what a read gives back: whenever a state
/// blob is produced for writing, it records the asked state.
pub proof fn lemma_enable_write_reads_back(s: Seq<u8>, enable: bool, now: u64)
    requires
        toggle_spec(s, enable, now).0 is Some,
    ensures
        state_of(toggle_spec(s, enable, now).1) == Some(enable),
{
    let (r, after) = toggle_spec(s, enable, now);
    if r == Some(true) {
        let b = bumped(s, now).update(18, if enable { 0x15u8 } else { 0x13u8 });
        crate::blob::lemma_timestamp_roundtrip(s, crate::blob::next_timestamp(
            crate::blob::embedded_ts(s),
            now,
        ));
        assert(after[18] == b[18]);
    }
}

/// Whether the state blob read back after a write records the asked state.
pub fn enabled_confirmed(readback: Option<Vec<u8>>, enable: bool) -> (r: bool)
    ensures
        r == (match readback {
            Some(d) => state_of(d@),
            None => None,
        } == Some(enable)),
{
    match get_enabled(readback) {
        Some(v) => v == enable,
        None => false,
    }
}


// ---------------------------------------------------------------------------
// Strength in settings blobs
// ---------------------------------------------------------------------------

/// The strength a settings blob records in its `CF 28` field.
pub open spec fn parsed_strength(s: Seq<u8>) -> Option<u32> {
    match temp_marker(s) {
        Some(i) => Some(kelvin_strength(kelvin_of(s[i], s[i + 1]))),
        None => None,
    }
}

/// Reads the strength a settings blob records.
pub fn parse_strength(data: &[u8]) -> (r: Option<u32>)
    ensures
        r == parsed_strength(data@),
{
    match find_temp_marker(data) {
        Some(idx) => Some(kelvin_to_strength(decode_kelvin(data[idx], data[idx + 1]))),
        None => None,
    }
}

/// A blob holding the colour temperature of a strength reads back as that
/// strength (capped at 100).
pub proof fn lemma_holds_strength(s: Seq<u8>, strength: u32)
    requires
        holds_kelvin(s, strength_kelvin(strength)),
    ensures
        parsed_strength(s) == Some(
            if strength > 100 {
                100
            } else {
                strength
            },
        ),
{
    let k = strength_kelvin(strength);
    crate::blob::lemma_kelvin_roundtrip(k);
    lemma_strength_roundtrip(strength);
}

/// What a strength write stores is what a read gives back: the edited and
/// stamped settings blob parses as the strength written (capped at 100) and
/// passes the read-back check — under the conditions of
/// `lemma_kelvin_write_reads_back` (field past the timestamp, no stray
/// `CF 28` in the new timestamp bytes, no clash with the state byte).
pub proof fn lemma_strength_write_reads_back(s: Seq<u8>, strength: u32, now: u64)
    requires
        kelvin_edit(s, strength_kelvin(strength)) is Some,
        crate::blob::edit_field(s) matches Some(m) && m >= 17,
        !(temp_marker(s) is None && crate::blob::unique_pair(s, 0xCA, 0x32) == Some(15int)
            && crate::blob::kelvin_hi(strength_kelvin(strength)) == 0x15),
        !crate::blob::pair_at(
            bumped(kelvin_edit(s, strength_kelvin(strength))->0, now),
            13,
            0xCF,
            0x28,
        ),
        !crate::blob::pair_at(
            bumped(kelvin_edit(s, strength_kelvin(strength))->0, now),
            14,
            0xCF,
            0x28,
        ),
    ensures
        ({
            let written = bumped(kelvin_edit(s, strength_kelvin(strength))->0, now);
            &&& holds_kelvin(written, strength_kelvin(strength))
            &&& parsed_strength(written) == Some(
                if strength > 100 {
                    100
                } else {
                    strength
                },
            )
        }),
{
    let k = strength_kelvin(strength);
    crate::blob::lemma_kelvin_write_reads_back(s, k, now);
    lemma_holds_strength(bumped(kelvin_edit(s, k)->0, now), strength);
}

/// The template written for a strength reads back as that strength (capped
/// at 100), unless its timestamp bytes 13 and 14 spell `CF 28`.
pub proof fn lemma_template_strength(strength: u32, now: u64)
    requires
        !(crate::blob::ts_group(now, 3) == 0xCF && crate::blob::ts_top(now) == 0x28),
    ensures
        structure_known(template(strength_kelvin(strength), now)),
        parsed_strength(template(strength_kelvin(strength), now)) == Some(
            if strength > 100 {
                100
            } else {
                strength
            },
        ),
{
    crate::blob::lemma_template_known(strength_kelvin(strength), now);
    crate::blob::lemma_template_parses_back(strength_kelvin(strength), now);
    lemma_holds_strength(template(strength_kelvin(strength), now), strength);
}

// ---------------------------------------------------------------------------
// Reading the strength from several settings keys
// ---------------------------------------------------------------------------

/// What was read from one settings key: its `Data` value (if any) and the
/// key's last-write time (if it could be read).
pub struct SettingsReading {
    pub data: Option<Vec<u8>>,
    pub last_write: Option<u64>,
}

/// The strength a reading offers: none when the value is missing, carries
/// the reset mark, or has no temperature field.
pub open spec fn reading_strength(r: SettingsReading) -> Option<u32> {
    match r.data {
        Some(d) => if is_reset(d@) {
            None
        } else {
            parsed_strength(d@)
        },
        None => None,
    }
}

/// The last-write time of a reading; an unreadable one counts as 0.
pub open spec fn reading_time(r: SettingsReading) -> u64 {
    match r.last_write {
        Some(t) => t,
        None => 0,
    }
}

/// Reading `i` is the one to believe among the first `n`: it offers a
/// strength, no reading offering one was written later, and every earlier
/// one offering one was written strictly earlier.
pub open spec fn newest_among(rs: Seq<SettingsReading>, i: int, n: int) -> bool {
    &&& 0 <= i < n <= rs.len()
    &&& reading_strength(rs[i]) is Some
    &&& forall|j: int|
        0 <= j < n && (#[trigger] reading_strength(rs[j])) is Some ==> reading_time(rs[j])
            <= reading_time(rs[i])
    &&& forall|j: int|
        0 <= j < i && (#[trigger] reading_strength(rs[j])) is Some ==> reading_time(rs[j])
            < reading_time(rs[i])
}

/// The current strength, from the readings of every settings key.
///
/// Keys may disagree (the Settings app writes only the main key, and late;
/// a per-device key keeps a stale value after a conflict reset), so reset
/// blobs are skipped and the most recently written key wins, the first one
/// on a tie.  `None` when no key offers a strength.
pub fn get_strength(readings: &Vec<SettingsReading>) -> (r: Option<u32>)
    ensures
        r is None <==> forall|i: int|
            0 <= i < readings@.len() ==> (#[trigger] reading_strength(readings@[i])) is None,
        r matches Some(v) ==> exists|i: int|
            newest_among(readings@, i, readings@.len() as int) && #[trigger] reading_strength(
                readings@[i],
            ) == Some(v),
{
    let mut best: Option<(u64, u32)> = None;
    let ghost mut best_i: int = 0;
    let mut n: usize = 0;
    while n < readings.len()
        invariant
            n <= readings@.len(),
            best is None <==> forall|i: int|
                0 <= i < n ==> (#[trigger] reading_strength(readings@[i])) is None,
            best matches Some((t, v)) ==> {
                &&& newest_among(readings@, best_i, n as int)
                &&& reading_strength(readings@[best_i]) == Some(v)
                &&& reading_time(readings@[best_i]) == t
            },
        decreases readings.len() - n,
    {
        let rd = &readings[n];
        let strength = match &rd.data {
            Some(d) => {
                if is_reset_blob(d.as_slice()) {
                    None
                } else {
                    parse_strength(d.as_slice())
                }
            },
            None => None,
        };
        assert(strength == reading_strength(readings@[n as int]));
        if let Some(v) = strength {
            let t = match rd.last_write {
                Some(t) => t,
                None => 0,
            };
            let newer = match best {
                Some((bt, _)) => t > bt,
                None => true,
            };
            if newer {
                best = Some((t, v));
                proof {
                    best_i = n as int;
                }
            }
        }
        n = n + 1;
    }
    match best {
        Some((_, v)) => Some(v),
        None => None,
    }
}

// ---------------------------------------------------------------------------
// Writing the strength into one settings key
// ---------------------------------------------------------------------------

/// The settings blob to write for colour temperature `kelvin`, given the
/// one read from the key, stamped at `now`; `None` (report failure, write
/// nothing) when nothing was read, the layout is not the known one, or no
/// place for the field is found.
pub open spec fn kelvin_write_spec(current: Option<Seq<u8>>, kelvin: u32, now: u64) -> Option<
    Seq<u8>,
> {
    match current {
        Some(d) => if !structure_known(d) {
            None
        } else {
            match kelvin_edit(d, kelvin) {
                Some(e) => Some(bumped(e, now)),
                None => None,
            }
        },
        None => None,
    }
}

/// Every blob of the known layout that the edit applies to is written: the
/// written blob is the edit, stamped.  In particular a blob without a
/// temperature field but with exactly one `CA 32` field (the one the system
/// rebuilds before the first strength change) gets the four bytes
/// `CF 28 lo hi` inserted right before that `CA 32`: it grows by four bytes,
/// everything before the field and past the timestamp stays (but a state
/// byte 18 of `15`, which becomes `19`), and the `CA 32` follows the new field.
pub proof fn lemma_known_layout_written(d: Seq<u8>, k: u32, now: u64)
    requires
        structure_known(d),
    ensures
        kelvin_edit(d, k) is Some ==> kelvin_write_spec(Some(d), k, now) == Some(
            bumped(kelvin_edit(d, k)->0, now),
        ),
        temp_marker(d) is None && unique_pair(d, 0xCA, 0x32) is Some ==> ({
            let p = unique_pair(d, 0xCA, 0x32)->0;
            let w = kelvin_write_spec(Some(d), k, now);
            &&& w is Some
            &&& w->0.len() == d.len() + 4
            &&& forall|i: int| 15 <= i < p && i != 18 ==> #[trigger] w->0[i] == d[i]
            &&& p >= 15 ==> w->0[p] == 0xCF && w->0[p + 1] == 0x28
            &&& 18 < p ==> w->0[18] == if d[18] == 0x15 {
                0x19u8
            } else {
                d[18]
            }
            &&& p >= 15 ==> w->0[p + 2] == kelvin_lo(k)
            &&& p >= 15 && !(p == 15 && kelvin_hi(k) == 0x15) ==> w->0[p + 3] == kelvin_hi(k)
            &&& p >= 15 ==> w->0[p + 4] == 0xCA && w->0[p + 5] == 0x32
        }),
{
    if kelvin_edit(d, k) is Some {
        lemma_edit_len(d, k);
        lemma_timestamp_roundtrip(kelvin_edit(d, k)->0, next_timestamp(
            embedded_ts(kelvin_edit(d, k)->0),
            now,
        ));
    }
    if temp_marker(d) is None && unique_pair(d, 0xCA, 0x32) is Some {
        let p = unique_pair(d, 0xCA, 0x32)->0;
        lemma_first_pair_from(d, 0xCA, 0x32, 0);
        assert(pair_at(d, p, 0xCA, 0x32));
        let t = d.take(p) + seq![0xCFu8, 0x28u8, kelvin_lo(k), kelvin_hi(k)] + d.skip(p);
        assert(t[p] == 0xCF && t[p + 1] == 0x28 && t[p + 2] == kelvin_lo(k) && t[p + 3]
            == kelvin_hi(k) && t[p + 4] == 0xCA && t[p + 5] == 0x32);
        assert(kelvin_lo(k) != 0x15u8) by {
            assert((((k & 0x3F) << 1u32) | 0x80) as u8 != 0x15u8) by (bit_vector);
        }
        assert forall|i: int| 0 <= i < p implies t[i] == d[i] by {}
    }
}

/// The optional blob as a sequence.
pub open spec fn opt_view(v: Option<Vec<u8>>) -> Option<Seq<u8>> {
    match v {
        Some(d) => Some(d@),
        None => None,
    }
}

/// The settings blob to write for colour temperature `kelvin` at clock value `now`.
pub fn kelvin_write_blob_at(current: Option<Vec<u8>>, kelvin: u32, now: u64) -> (r: Option<Vec<u8>>)
    ensures
        opt_view(r) == kelvin_write_spec(opt_view(current), kelvin, now),
{
    match current {
        None => None,
        Some(d) => {
            if !structure_ok(d.as_slice()) {
                return None;
            }
            let mut d = d;
            proof {
                if kelvin_edit(d@, kelvin) is Some {
                    crate::blob::lemma_edit_len(d@, kelvin);
                }
            }
            if set_kelvin_in_blob_at(&mut d, kelvin, now) {
                Some(d)
            } else {
                None
            }
        },
    }
}

/// The settings blob to write for colour temperature `kelvin` at the current clock value.
pub fn kelvin_write_blob(current: Option<Vec<u8>>, kelvin: u32) -> (r: Option<Vec<u8>>)
    ensures
        exists|now: u64| opt_view(r) == #[trigger] kelvin_write_spec(opt_view(current), kelvin, now),
{
    let now = crate::clock::current_unix_secs();
    kelvin_write_blob_at(current, kelvin, now)
}

/// Whether the blob read back after a write holds colour temperature `kelvin`.
pub fn kelvin_write_confirmed(readback: Option<Vec<u8>>, kelvin: u32) -> (r: bool)
    ensures
        r == (readback matches Some(d) && holds_kelvin(d@, kelvin)),
{
    match readback {
        Some(d) => blob_holds_kelvin(d.as_slice(), kelvin),
        None => false,
    }
}


// ---------------------------------------------------------------------------
// Settings keys
// ---------------------------------------------------------------------------

/// The CloudStore subtree that holds the Night Light keys (under HKCU).
pub const CLOUDSTORE_CURRENT: &'static str =
    "SOFTWARE\\Microsoft\\Windows\\CurrentVersion\\CloudStore\\Store\\DefaultAccount\\Current";

/// The on/off state key.
pub const STATE_KEY: &'static str = "SOFTWARE\\Microsoft\\Windows\\CurrentVersion\\CloudStore\\Store\\DefaultAccount\\Current\\default$windows.data.bluelightreduction.bluelightreductionstate\\windows.data.bluelightreduction.bluelightreductionstate";

/// The settings key under its older name, rebuilt from the template only when
/// no settings key exists at all.
pub const SETTINGS_KEY: &'static str = "SOFTWARE\\Microsoft\\Windows\\CurrentVersion\\CloudStore\\Store\\DefaultAccount\\Current\\default$windows.data.bluelightreduction.bluelightreduction.settings\\windows.data.bluelightreduction.settings";

/// The name of the value that holds a blob.
pub const DATA_VALUE: &'static str = "Data";

/// What a subkey name of `Current` is: `Some(false)` a current settings key
/// (main or per-device), `Some(true)` the older-named settings key, `None`
/// anything else.  The part after the first `$` must start with
/// `windows.data.bluelightreduction.` and not mention `state`; the older name
/// is matched exactly, the current ones by the endings `settings` and
/// `settingsperdevice`.
pub open spec fn classify_spec(name: Seq<char>) -> Option<bool> {
    match first_index_from(name, '$', 0) {
        None => None,
        Some(d) => {
            let suffix = name.skip(d + 1);
            if !"windows.data.bluelightreduction."@.is_prefix_of(suffix) || has_substr(
                suffix,
                "state"@,
            ) {
                None
            } else if suffix == "windows.data.bluelightreduction.bluelightreduction.settings"@ {
                Some(true)
            } else if "settings"@.is_suffix_of(suffix) || "settingsperdevice"@.is_suffix_of(suffix) {
                Some(false)
            } else {
                None
            }
        },
    }
}

/// Classifies a subkey name of `Current` (see `classify_spec`).
pub fn classify_settings_parent(name: &str) -> (r: Option<bool>)
    ensures
        r == classify_spec(name@),
{
    let chars = chars_of(name);
    let n = chars.len();
    let d = match find_char_from(&chars, '$', 0) {
        Some(d) => d,
        None => return None,
    };
    proof {
        crate::text::lemma_first_index_from(chars@, '$', 0);
    }
    let suffix = chars_from(&chars, d + 1);
    if !starts_with(&suffix, &chars_of("windows.data.bluelightreduction.")) || contains_seq(
        &suffix,
        &chars_of("state"),
    ) {
        return None;
    }
    if same_chars(&suffix, &chars_of("windows.data.bluelightreduction.bluelightreduction.settings")) {
        return Some(true);
    }
    if ends_with(&suffix, &chars_of("settings")) || ends_with(&suffix, &chars_of("settingsperdevice")) {
        return Some(false);
    }
    None
}

/// No `s` directly followed by `t` from index `i` on.
pub open spec fn st_free_from(s: Seq<char>, i: nat) -> bool
    decreases s.len() - i,
{
    if i + 1 >= s.len() {
        true
    } else {
        !(s[i as int] == 's' && s[i + 1int] == 't') && st_free_from(s, i + 1)
    }
}

/// A sequence free of `st` from `i` on has no `state` starting there.
proof fn lemma_st_free(s: Seq<char>, i: nat)
    requires
        st_free_from(s, i),
    ensures
        forall|j: int| i <= j && j + 1 < s.len() ==> !(#[trigger] s[j] == 's' && s[j + 1] == 't'),
    decreases s.len() - i,
{
    if i + 1 < s.len() {
        lemma_st_free(s, i + 1);
    }
}

/// The older settings name starts with the Night Light prefix and does not
/// mention `state`.
proof fn lemma_legacy_name()
    ensures
        "windows.data.bluelightreduction."@.is_prefix_of(
            "windows.data.bluelightreduction.bluelightreduction.settings"@,
        ),
        !has_substr("windows.data.bluelightreduction.bluelightreduction.settings"@, "state"@),
{
    reveal_strlit("windows.data.bluelightreduction.");
    reveal_strlit("windows.data.bluelightreduction.bluelightreduction.settings");
    reveal_strlit("state");
    let l = "windows.data.bluelightreduction.bluelightreduction.settings"@;
    let p = "windows.data.bluelightreduction."@;
    assert(p =~= l.subrange(0, p.len() as int));
    assert(st_free_from(l, 0)) by {
        reveal_with_fuel(st_free_from, 60);
    }
    lemma_st_free(l, 0);
    assert forall|i: int| !#[trigger] crate::text::occurs_at(l, "state"@, i) by {
        if crate::text::occurs_at(l, "state"@, i) {
            let sub = l.subrange(i, i + 5);
            assert(sub[0] == 's' && sub[1] == 't');
            assert(l[i] == 's' && l[i + 1] == 't');
        }
    }
}

/// How a subkey name of `Current` is classified, stated over the part `s`
/// after its first `$` (no `$`: not a settings key): exactly the older name
/// is the legacy key; a name other than that which starts with
/// `windows.data.bluelightreduction.`, does not mention `state`, and ends
/// with `settings` or `settingsperdevice` is a current-style key; anything
/// else is no settings key.
pub proof fn lemma_classify(name: Seq<char>)
    ensures
        match first_index_from(name, '$', 0) {
            None => classify_spec(name) is None,
            Some(d) => {
                let s = name.skip(d + 1);
                &&& (classify_spec(name) == Some(true) <==> s
                    == "windows.data.bluelightreduction.bluelightreduction.settings"@)
                &&& (classify_spec(name) == Some(false) <==> s
                    != "windows.data.bluelightreduction.bluelightreduction.settings"@
                    && "windows.data.bluelightreduction."@.is_prefix_of(s) && !has_substr(
                    s,
                    "state"@,
                ) && ("settings"@.is_suffix_of(s) || "settingsperdevice"@.is_suffix_of(s)))
            },
        },
{
    lemma_legacy_name();
}

/// The character sequences of a list of strings.
pub open spec fn strs(v: Seq<String>) -> Seq<Seq<char>> {
    v.map_values(|s: String| s@)
}

/// A settings parent key found under `Current`: its full path and whether it
/// is the older-named one.
pub struct SettingsParent {
    pub path: String,
    pub legacy: bool,
}

/// The settings parents among the subkey names of `Current`, in order, with full paths.
pub open spec fn parents_spec(names: Seq<Seq<char>>) -> Seq<(Seq<char>, bool)>
    decreases names.len(),
{
    if names.len() == 0 {
        seq![]
    } else {
        let prev = parents_spec(names.drop_last());
        match classify_spec(names.last()) {
            Some(b) => prev.push((join_key_spec(CLOUDSTORE_CURRENT@, names.last()), b)),
            None => prev,
        }
    }
}

/// A settings parent as a pair of path and legacy flag.
pub open spec fn parent_view(p: SettingsParent) -> (Seq<char>, bool) {
    (p.path@, p.legacy)
}

/// Picks the settings parents out of the subkey names of `Current`.
pub fn settings_parents(names: &Vec<String>) -> (r: Vec<SettingsParent>)
    ensures
        r@.map_values(|p: SettingsParent| parent_view(p)) == parents_spec(strs(names@)),
{
    let mut r: Vec<SettingsParent> = Vec::new();
    let mut i: usize = 0;
    while i < names.len()
        invariant
            i <= names@.len(),
            r@.map_values(|p: SettingsParent| parent_view(p)) == parents_spec(
                strs(names@.take(i as int)),
            ),
        decreases names.len() - i,
    {
        let ghost prev = r@;
        let name = names[i].as_str();
        assert(strs(names@.take(i + 1)).drop_last() =~= strs(names@.take(i as int)));
        assert(strs(names@.take(i + 1)).last() == names@[i as int]@);
        match classify_settings_parent(name) {
            Some(b) => {
                r.push(SettingsParent { path: join_key(CLOUDSTORE_CURRENT, name), legacy: b });
                assert(r@.map_values(|p: SettingsParent| parent_view(p)) =~= prev.map_values(
                    |p: SettingsParent| parent_view(p),
                ).push(parent_view(r@.last())));
            },
            None => {},
        }
        i = i + 1;
    }
    assert(names@.take(names@.len() as int) =~= names@);
    r
}

/// A settings parent with the names of its leaf subkeys.
pub struct ParentLeaves {
    pub path: String,
    pub legacy: bool,
    pub leaves: Vec<String>,
}

/// The full paths of the leaf keys under the parents of the given kind, in order.
pub open spec fn leaf_keys(ps: Seq<ParentLeaves>, legacy: bool) -> Seq<Seq<char>>
    decreases ps.len(),
{
    if ps.len() == 0 {
        seq![]
    } else {
        let p = ps.last();
        leaf_keys(ps.drop_last(), legacy) + if p.legacy == legacy {
            p.leaves@.map_values(|l: String| join_key_spec(p.path@, l@))
        } else {
            seq![]
        }
    }
}

/// The full paths of the current-style and the older-named settings keys.
pub fn collect_settings_keys(parents: &Vec<ParentLeaves>) -> (r: (Vec<String>, Vec<String>))
    ensures
        strs(r.0@) == leaf_keys(parents@, false),
        strs(r.1@) == leaf_keys(parents@, true),
{
    let mut modern: Vec<String> = Vec::new();
    let mut legacy: Vec<String> = Vec::new();
    let mut i: usize = 0;
    while i < parents.len()
        invariant
            i <= parents@.len(),
            strs(modern@) == leaf_keys(parents@.take(i as int), false),
            strs(legacy@) == leaf_keys(parents@.take(i as int), true),
        decreases parents.len() - i,
    {
        let p = &parents[i];
        let ghost m0 = strs(modern@);
        let ghost l0 = strs(legacy@);
        let ghost add = p.leaves@.map_values(|l: String| join_key_spec(p.path@, l@));
        let mut j: usize = 0;
        while j < p.leaves.len()
            invariant
                i < parents@.len(),
                p == parents@[i as int],
                j <= p.leaves@.len(),
                add == p.leaves@.map_values(|l: String| join_key_spec(p.path@, l@)),
                p.legacy ==> strs(modern@) == m0 && strs(legacy@) == l0 + add.take(j as int),
                !p.legacy ==> strs(legacy@) == l0 && strs(modern@) == m0 + add.take(j as int),
            decreases p.leaves.len() - j,
        {
            let full = join_key(p.path.as_str(), p.leaves[j].as_str());
            assert(add[j as int] == full@);
            assert(add.take(j + 1) =~= add.take(j as int).push(full@));
            if p.legacy {
                let ghost before = legacy@;
                legacy.push(full);
                assert(strs(legacy@) =~= strs(before).push(full@));
                assert(strs(legacy@) =~= l0 + add.take(j + 1));
            } else {
                let ghost before = modern@;
                modern.push(full);
                assert(strs(modern@) =~= strs(before).push(full@));
                assert(strs(modern@) =~= m0 + add.take(j + 1));
            }
            j = j + 1;
        }
        assert(add.take(p.leaves@.len() as int) =~= add);
        assert(parents@.take(i + 1).drop_last() =~= parents@.take(i as int));
        i = i + 1;
        assert(strs(modern@) =~= leaf_keys(parents@.take(i as int), false));
        assert(strs(legacy@) =~= leaf_keys(parents@.take(i as int), true));
    }
    assert(parents@.take(parents@.len() as int) =~= parents@);
    (modern, legacy)
}


/// The settings keys of one kind (older-named when `legacy`) found from the
/// subkey names of `Current`, where `leaves` gives the leaf names under a
/// parent path: in name order, each classified parent of that kind
/// contributes its leaves, each joined to the parent's full path.
pub open spec fn composed_keys(
    names: Seq<Seq<char>>,
    leaves: spec_fn(Seq<char>) -> Seq<Seq<char>>,
    legacy: bool,
) -> Seq<Seq<char>>
    decreases names.len(),
{
    if names.len() == 0 {
        seq![]
    } else {
        let path = join_key_spec(CLOUDSTORE_CURRENT@, names.last());
        composed_keys(names.drop_last(), leaves, legacy) + if classify_spec(names.last()) == Some(
            legacy,
        ) {
            leaves(path).map_values(|l: Seq<char>| join_key_spec(path, l))
        } else {
            seq![]
        }
    }
}

/// Picking the parents with `settings_parents`, listing each one's leaves,
/// and collecting with `collect_settings_keys` gives the settings keys of
/// each kind as `composed_keys` says.
pub proof fn lemma_collect_composed(
    names: Seq<Seq<char>>,
    ps: Seq<ParentLeaves>,
    leaves: spec_fn(Seq<char>) -> Seq<Seq<char>>,
    legacy: bool,
)
    requires
        ps.map_values(|p: ParentLeaves| (p.path@, p.legacy)) == parents_spec(names),
        forall|i: int| 0 <= i < ps.len() ==> strs(#[trigger] ps[i].leaves@) == leaves(ps[i].path@),
    ensures
        leaf_keys(ps, legacy) == composed_keys(names, leaves, legacy),
    decreases names.len(),
{
    let pv = |p: ParentLeaves| (p.path@, p.legacy);
    if names.len() == 0 {
        assert(ps.map_values(pv).len() == 0);
        assert(ps.len() == 0);
    } else {
        let prev = parents_spec(names.drop_last());
        let path = join_key_spec(CLOUDSTORE_CURRENT@, names.last());
        match classify_spec(names.last()) {
            Some(b) => {
                assert(ps.map_values(pv) == prev.push((path, b)));
                assert(ps.map_values(pv).len() == ps.len());
                assert(ps.len() == prev.len() + 1);
                let pre = ps.drop_last();
                assert forall|i: int| 0 <= i < prev.len() implies pre.map_values(pv)[i] == prev[i] by {
                    assert(ps.map_values(pv)[i] == prev.push((path, b))[i]);
                }
                assert(pre.map_values(pv) =~= prev);
                assert forall|i: int| 0 <= i < pre.len() implies strs(#[trigger] pre[i].leaves@)
                    == leaves(pre[i].path@) by {
                    assert(pre[i] == ps[i]);
                }
                lemma_collect_composed(names.drop_last(), pre, leaves, legacy);
                let last = ps.last();
                assert(ps.map_values(pv)[ps.len() - 1] == (path, b));
                assert(last.path@ == path && last.legacy == b);
                assert(strs(last.leaves@) == leaves(path));
                assert(last.leaves@.map_values(|l: String| join_key_spec(last.path@, l@))
                    =~= leaves(path).map_values(|l: Seq<char>| join_key_spec(path, l)));
            },
            None => {
                assert(ps.map_values(pv) == prev);
                lemma_collect_composed(names.drop_last(), ps, leaves, legacy);
                assert(leaf_keys(ps, legacy) == composed_keys(names.drop_last(), leaves, legacy));
                assert(composed_keys(names, leaves, legacy) =~= composed_keys(
                    names.drop_last(),
                    leaves,
                    legacy,
                ));
            },
        }
    }
}

/// The keys strength is written to: the current-style ones, or the
/// older-named ones when no current-style key exists.
pub open spec fn settings_keys_spec(modern: Seq<String>, legacy: Seq<String>) -> Seq<String> {
    if modern.len() == 0 {
        legacy
    } else {
        modern
    }
}

/// The keys strength is written to (see `settings_keys_spec`).
pub fn settings_keys(modern: Vec<String>, legacy: Vec<String>) -> (r: Vec<String>)
    ensures
        r@ == settings_keys_spec(modern@, legacy@),
{
    if modern.len() == 0 {
        legacy
    } else {
        modern
    }
}

/// Every settings key, current-style first: the keys strength is read from.
pub fn all_settings_keys(modern: Vec<String>, legacy: Vec<String>) -> (r: Vec<String>)
    ensures
        r@ == modern@ + legacy@,
{
    let mut modern = modern;
    let mut legacy = legacy;
    modern.append(&mut legacy);
    modern
}

/// A per-device settings key: its path mentions `settingsperdevice`.
pub open spec fn is_perdevice(key: Seq<char>) -> bool {
    has_substr(key, "settingsperdevice"@)
}

/// The keys (in order) that are per-device keys when `perdevice`, or that are not otherwise.
pub open spec fn keys_where(keys: Seq<String>, perdevice: bool) -> Seq<Seq<char>>
    decreases keys.len(),
{
    if keys.len() == 0 {
        seq![]
    } else {
        keys_where(keys.drop_last(), perdevice) + if is_perdevice(keys.last()@) == perdevice {
            seq![keys.last()@]
        } else {
            seq![]
        }
    }
}

/// Picks the per-device keys (or the others) out of a key list.
pub fn select_keys(keys: &Vec<String>, perdevice: bool) -> (r: Vec<String>)
    ensures
        strs(r@) == keys_where(keys@, perdevice),
{
    let marker = chars_of("settingsperdevice");
    let mut r: Vec<String> = Vec::new();
    let mut i: usize = 0;
    while i < keys.len()
        invariant
            i <= keys@.len(),
            marker@ == "settingsperdevice"@,
            strs(r@) == keys_where(keys@.take(i as int), perdevice),
        decreases keys.len() - i,
    {
        let ghost before = r@;
        assert(keys@.take(i + 1).drop_last() =~= keys@.take(i as int));
        assert(keys@.take(i + 1).last() == keys@[i as int]);
        if contains_seq(&chars_of(keys[i].as_str()), &marker) == perdevice {
            r.push(keys[i].clone());
            assert(strs(r@) =~= strs(before).push(keys@[i as int]@));
        }
        i = i + 1;
        assert(strs(r@) =~= keys_where(keys@.take(i as int), perdevice));
    }
    assert(keys@.take(keys@.len() as int) =~= keys@);
    r
}

/// Where a colour temperature is to be written: a list of settings keys.
pub struct KelvinTargets {
    pub keys: Vec<String>,
    pub kelvin: u32,
}

/// What setting the strength writes.
pub enum StrengthWrite {
    /// No settings key exists: write this complete blob to this key, then
    /// confirm by reading back colour temperature `kelvin`.
    Template { key: String, blob: Vec<u8>, kelvin: u32 },
    /// Edit the blob of each of these keys in place.
    Keys(KelvinTargets),
}

/// Setting strength `strength` at clock value `now`: only the main settings
/// keys (never the per-device copies the system derives from them) get the
/// new colour temperature; with none of them, the template is written to the
/// older-named settings key.
pub fn set_strength_at(modern: Vec<String>, legacy: Vec<String>, strength: u32, now: u64) -> (r:
    StrengthWrite)
    ensures
        ({
            let main = keys_where(settings_keys_spec(modern@, legacy@), false);
            if main.len() == 0 {
                r matches StrengthWrite::Template { key, blob, kelvin } && key@ == SETTINGS_KEY@ && blob@
                    == template(strength_kelvin(strength), now) && kelvin == strength_kelvin(strength)
            } else {
                r matches StrengthWrite::Keys(t) && strs(t.keys@) == main && t.kelvin
                    == strength_kelvin(strength)
            }
        }),
{
    let kelvin = strength_to_kelvin(strength);
    let keys = select_keys(&settings_keys(modern, legacy), false);
    if keys.len() == 0 {
        return StrengthWrite::Template {
            key: String::from_str(SETTINGS_KEY),
            blob: build_settings_template_at(kelvin, now),
            kelvin,
        };
    }
    StrengthWrite::Keys(KelvinTargets { keys, kelvin })
}

/// Setting strength `strength` at the current clock value (see `set_strength_at`).
pub fn set_strength(modern: Vec<String>, legacy: Vec<String>, strength: u32) -> (r: StrengthWrite)
    ensures
        ({
            let main = keys_where(settings_keys_spec(modern@, legacy@), false);
            if main.len() == 0 {
                r matches StrengthWrite::Template { key, blob, kelvin } && kelvin == strength_kelvin(
                    strength,
                ) && key@ == SETTINGS_KEY@ && exists|
                    now: u64,
                | blob@ == #[trigger] template(strength_kelvin(strength), now)
            } else {
                r matches StrengthWrite::Keys(t) && strs(t.keys@) == main && t.kelvin
                    == strength_kelvin(strength)
            }
        }),
{
    let now = crate::clock::current_unix_secs();
    set_strength_at(modern, legacy, strength, now)
}

/// The per-device keys only, with the colour temperature of `strength`: a
/// diagnostic write path the normal one avoids on purpose.
pub fn set_strength_perdevice_only(modern: Vec<String>, legacy: Vec<String>, strength: u32) -> (r:
    KelvinTargets)
    ensures
        strs(r.keys@) == keys_where(settings_keys_spec(modern@, legacy@), true),
        r.kelvin == strength_kelvin(strength),
{
    let kelvin = strength_to_kelvin(strength);
    let keys = select_keys(&settings_keys(modern, legacy), true);
    KelvinTargets { keys, kelvin }
}

/// The blob to write to one per-device key on the diagnostic path that
/// first repairs a reset timestamp: `None` (skip the key, write nothing) when
/// nothing was read, the layout is not the known one, or it has no
/// temperature field.  The host confirms each write with
/// `kelvin_write_confirmed`.
pub fn set_strength_perdevice_fixts(current: Option<Vec<u8>>, kelvin: u32) -> (r: Option<Vec<u8>>)
    ensures
        match current {
            None => r is None,
            Some(d) => match r {
                Some(w) => exists|n1: u64, n2: u64|
                    #[trigger] repaired_kelvin_spec(d@, kelvin, n1, n2) == Some(w@),
                None => forall|n1: u64, n2: u64|
                    #[trigger] repaired_kelvin_spec(d@, kelvin, n1, n2) is None,
            },
        },
{
    match current {
        None => None,
        Some(d) => repair_and_set_kelvin(d, kelvin),
    }
}

} // verus!
