use win_night_shift::blob::{
    build_settings_template, bump_timestamp, decode_kelvin, embedded_timestamp, encode_kelvin,
    set_kelvin_in_blob, structure_ok, toggle_state_blob,
};
use win_night_shift::clock::current_unix_secs;
use win_night_shift::nightlight::{
    classify_settings_parent, kelvin_to_strength, parse_strength, strength_to_kelvin,
};

/// An "off" state blob (length 41, with the state byte at 18 and the
/// insertable bytes at 23/24 where the real system has them).
fn off_state_blob() -> Vec<u8> {
    let mut d = vec![0u8; 41];
    d[10] = 0x80;
    d[11] = 0x9A;
    d[12] = 0xFF;
    d[13] = 0x81;
    d[14] = 0x07;
    d[18] = 0x13;
    d
}

#[test]
fn state_toggle_roundtrip() {
    let mut d = off_state_blob();
    // Off -> on: two bytes inserted, timestamp advanced to now, state byte flipped.
    assert_eq!(toggle_state_blob(&mut d, true), Some(true));
    assert_eq!(d.len(), 43);
    assert_eq!(d[18], 0x15);
    assert_eq!(d[23], 0x10);
    assert_eq!(d[24], 0x00);
    let now = current_unix_secs();
    let t1 = embedded_timestamp(&d).unwrap();
    assert!(t1 >= now && t1 <= now + 5);

    // On -> off: back as before (but for the timestamp).
    assert_eq!(toggle_state_blob(&mut d, false), Some(true));
    assert_eq!(d.len(), 41);
    assert_eq!(d[18], 0x13);

    // Idempotent: already in the asked state, nothing changes.
    let before = d.clone();
    assert_eq!(toggle_state_blob(&mut d, false), Some(false));
    assert_eq!(d, before);
}

#[test]
fn structure_check() {
    assert!(structure_ok(&build_settings_template(3900)));
    assert!(!structure_ok(&[]));
    assert!(!structure_ok(&[0u8; 48])); // wrong header
    let mut long = vec![0x43, 0x42, 0x01, 0x00];
    long.resize(100, 0);
    assert!(!structure_ok(&long)); // right header, too long
}

#[test]
fn set_kelvin_modifies_in_place() {
    let mut d = build_settings_template(3900);
    let len = d.len();
    assert!(set_kelvin_in_blob(&mut d, strength_to_kelvin(75)));
    assert_eq!(d.len(), len); // CF 28 present: edited in place, same length
    assert_eq!(parse_strength(&d), Some(75));
}

#[test]
fn set_kelvin_inserts_into_fresh_blob() {
    // A "fresh" blob: the template without its CF 28 field, byte 18 set to
    // 0x15 (what the system rebuilds before the first strength change).
    let mut fresh = build_settings_template(3900);
    let idx = fresh.windows(2).position(|w| w == [0xCF, 0x28]).unwrap();
    fresh.splice(idx..idx + 4, []);
    fresh[18] = 0x15;
    assert_eq!(parse_strength(&fresh), None);

    assert!(set_kelvin_in_blob(&mut fresh, strength_to_kelvin(25)));
    assert_eq!(parse_strength(&fresh), Some(25));
    // Inserted right before the CA 32 field.
    let ca32 = fresh.windows(2).position(|w| w == [0xCA, 0x32]).unwrap();
    assert_eq!(&fresh[ca32 - 4..ca32], &[0xCF, 0x28, fresh[ca32 - 2], fresh[ca32 - 1]]);
    // Byte 18 goes from 0x15 to 0x19 with the insertion.
    assert_eq!(fresh[18], 0x19);
    // Any other value of that byte is left alone (the template has 0x1D).
    let mut legacy = build_settings_template(3900);
    let idx = legacy.windows(2).position(|w| w == [0xCF, 0x28]).unwrap();
    legacy.splice(idx..idx + 4, []);
    assert!(set_kelvin_in_blob(&mut legacy, strength_to_kelvin(25)));
    assert_eq!(legacy[18], 0x1D);
}

#[test]
fn set_kelvin_rejects_unknown_layout() {
    // Neither CF 28 nor CA 32.
    let mut d = vec![0x43, 0x42, 0x01, 0x00];
    d.resize(40, 0);
    assert!(!set_kelvin_in_blob(&mut d, 3900));
    // CA 32 twice: no safe insertion point.
    let mut d2 = build_settings_template(3900);
    let idx = d2.windows(2).position(|w| w == [0xCF, 0x28]).unwrap();
    d2.splice(idx..idx + 4, []);
    d2.extend_from_slice(&[0xCA, 0x32]);
    let before = d2.clone();
    assert!(!set_kelvin_in_blob(&mut d2, 3900));
    assert_eq!(d2, before); // refused without side effects
}

#[test]
fn state_toggle_rejects_bad_layout() {
    // Too short.
    let mut short = vec![0u8; 10];
    assert_eq!(toggle_state_blob(&mut short, true), None);
    // Unknown state byte.
    let mut bad = off_state_blob();
    bad[18] = 0x42;
    assert_eq!(toggle_state_blob(&mut bad, true), None);
    // Already off: idempotent, bytes 23/24 not looked at.
    let mut bad2 = off_state_blob();
    bad2[23] = 0xAA;
    assert_eq!(toggle_state_blob(&mut bad2, false), Some(false));
    // On (succeeds), break byte 23, then off: refused.
    let mut bad3 = off_state_blob();
    assert_eq!(toggle_state_blob(&mut bad3, true), Some(true));
    bad3[23] = 0xAA;
    assert_eq!(toggle_state_blob(&mut bad3, false), None);
}

#[test]
fn kelvin_codec_roundtrip() {
    for k in [1200, 3055, 3900, 4750, 6500] {
        let (lo, hi) = encode_kelvin(k);
        assert_eq!(decode_kelvin(lo, hi), k);
    }
}

#[test]
fn strength_kelvin_mapping() {
    assert_eq!(strength_to_kelvin(0), 6500);
    assert_eq!(strength_to_kelvin(100), 1200);
    assert_eq!(strength_to_kelvin(50), 3850);
    assert_eq!(kelvin_to_strength(6500), 0);
    assert_eq!(kelvin_to_strength(1200), 100);
    // Strength -> kelvin -> strength is stable.
    for s in [0u32, 1, 25, 50, 75, 99, 100] {
        assert_eq!(kelvin_to_strength(strength_to_kelvin(s)), s);
    }
}

#[test]
fn template_parses_back() {
    let blob = build_settings_template(3900);
    assert_eq!(parse_strength(&blob), Some(kelvin_to_strength(3900)));
}

#[test]
fn marker_not_found() {
    assert_eq!(parse_strength(&[0xCF]), None);
    assert_eq!(parse_strength(&[]), None);
}

#[test]
fn bump_advances_sane_timestamp() {
    let mut d = build_settings_template(3900);
    let before = embedded_timestamp(&d).unwrap();
    bump_timestamp(&mut d);
    assert!(embedded_timestamp(&d).unwrap() > before);
}

#[test]
fn bump_repairs_broken_timestamp() {
    let now = current_unix_secs();
    let repaired_to_now = |d: &mut Vec<u8>| {
        bump_timestamp(d);
        embedded_timestamp(d).unwrap()
    };
    // All 0xFF (the conflict-reset mark): repaired to now.
    let mut reset = build_settings_template(3900);
    for b in reset.iter_mut().take(15).skip(10) {
        *b = 0xFF;
    }
    assert!((now..=now + 5).contains(&repaired_to_now(&mut reset)));
    // Far-future value (seen in practice: "year 3059"): repaired too.
    let mut future = build_settings_template(3900);
    future[14] = 0x80;
    assert!((now..=now + 5).contains(&repaired_to_now(&mut future)));
}

#[test]
fn settings_key_filter() {
    // Main and per-device keys are current-style; the older name is legacy;
    // state keys and unrelated keys are left out.
    assert_eq!(
        classify_settings_parent(r"default$windows.data.bluelightreduction.settings"),
        Some(false)
    );
    assert_eq!(
        classify_settings_parent(
            r"{ddbff2b1-f073-4719-a70e-3f8c302b8ca8}$windows.data.bluelightreduction.settingsperdevice"
        ),
        Some(false)
    );
    assert_eq!(
        classify_settings_parent(r"default$windows.data.bluelightreduction.bluelightreduction.settings"),
        Some(true)
    );
    for name in [
        r"default$windows.data.bluelightreduction.bluelightreductionstate",
        r"{ddbff2b1-f073-4719-a70e-3f8c302b8ca8}$windows.data.bluelightreduction.bluelightreductionstateperdevice",
        r"default$windows.data.cortana.settings",
        "no-dollar-sign",
    ] {
        assert_eq!(classify_settings_parent(name), None, "{name}");
    }
}
