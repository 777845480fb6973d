use win_night_shift::blob::{
    blob_holds_kelvin, build_settings_template, build_settings_template_at, embedded_timestamp,
    encode_timestamp, find_temp_marker, is_reset_blob, repair_and_set_kelvin_at,
    toggle_state_blob_at, bump_timestamp_at, set_kelvin_in_blob_at,
};
use win_night_shift::nightlight::{
    all_settings_keys, classify_settings_parent, collect_settings_keys, enabled_confirmed,
    get_enabled, get_strength, kelvin_to_strength, kelvin_write_blob_at, kelvin_write_confirmed,
    parse_strength, select_keys, set_enabled_at, set_strength_at, set_strength_perdevice_fixts,
    set_strength_perdevice_only, settings_keys, settings_parents, strength_to_kelvin, ParentLeaves,
    SettingsReading, StrengthWrite, CLOUDSTORE_CURRENT, SETTINGS_KEY,
};

const NOW: u64 = 1_750_000_000;

fn off_state_blob() -> Vec<u8> {
    let mut d = vec![0u8; 41];
    d[10] = 0x80;
    d[11] = 0x9A;
    d[12] = 0xFF;
    d[13] = 0x81;
    d[14] = 0x07;
    d[18] = 0x13;
    d
}

#[test]
fn timestamp_codec_roundtrip() {
    let mut d = vec![0u8; 20];
    for t in [0u64, 1, 127, 128, NOW, 0xF_FFFF_FFFF] {
        encode_timestamp(&mut d, t);
        assert_eq!(embedded_timestamp(&d), Some(t));
        assert_eq!(d[..10], [0u8; 10]);
        assert_eq!(d[15..], [0u8; 5]);
    }
    assert_eq!(embedded_timestamp(&[0u8; 14]), None);
}

#[test]
fn bump_rules_exact_values() {
    let mut d = vec![0u8; 20];
    // Plausible and ahead of the clock: old + 1.
    encode_timestamp(&mut d, NOW + 100);
    bump_timestamp_at(&mut d, NOW);
    assert_eq!(embedded_timestamp(&d), Some(NOW + 101));
    // Plausible and behind the clock: the clock.
    encode_timestamp(&mut d, NOW - 100);
    bump_timestamp_at(&mut d, NOW);
    assert_eq!(embedded_timestamp(&d), Some(NOW));
    // More than a day ahead: repaired to the clock.
    encode_timestamp(&mut d, NOW + 86401);
    bump_timestamp_at(&mut d, NOW);
    assert_eq!(embedded_timestamp(&d), Some(NOW));
    // Before 2020: repaired to the clock.
    encode_timestamp(&mut d, 1_000_000_000);
    bump_timestamp_at(&mut d, NOW);
    assert_eq!(embedded_timestamp(&d), Some(NOW));
}

#[test]
fn toggle_roundtrip_keeps_all_but_timestamp() {
    let start = off_state_blob();
    let mut d = start.clone();
    assert_eq!(toggle_state_blob_at(&mut d, true, NOW), Some(true));
    assert_eq!(toggle_state_blob_at(&mut d, false, NOW + 7), Some(true));
    assert_eq!(d.len(), start.len());
    for i in (0..10).chain(15..start.len()) {
        assert_eq!(d[i], start[i], "byte {i}");
    }
    assert_eq!(embedded_timestamp(&d), Some(NOW + 7));
}

#[test]
fn enable_write_reads_back() {
    let written = set_enabled_at(Some(off_state_blob()), true, NOW).unwrap();
    assert_eq!(get_enabled(Some(written.clone())), Some(true));
    assert!(enabled_confirmed(Some(written), true));
    assert_eq!(set_enabled_at(None, true, NOW), None);
    let mut bad = off_state_blob();
    bad[18] = 0x42;
    assert_eq!(set_enabled_at(Some(bad), true, NOW), None);
    // Already off: written back unchanged.
    assert_eq!(set_enabled_at(Some(off_state_blob()), false, NOW), Some(off_state_blob()));
}

#[test]
fn get_enabled_values() {
    assert_eq!(get_enabled(None), None);
    assert_eq!(get_enabled(Some(vec![0u8; 18])), None);
    let mut on = vec![0u8; 19];
    on[18] = 0x15;
    assert_eq!(get_enabled(Some(on)), Some(true));
    assert_eq!(get_enabled(Some(off_state_blob())), Some(false));
    assert!(!enabled_confirmed(None, false));
}

#[test]
fn strength_write_reads_back() {
    for s in [0u32, 1, 33, 50, 99, 100, 250] {
        let blob = build_settings_template_at(strength_to_kelvin(s), NOW);
        let written = kelvin_write_blob_at(Some(blob), strength_to_kelvin(s), NOW + 1).unwrap();
        assert!(kelvin_write_confirmed(Some(written.clone()), strength_to_kelvin(s)));
        assert_eq!(parse_strength(&written), Some(s.min(100)));
    }
}

#[test]
fn kelvin_write_refusals() {
    assert_eq!(kelvin_write_blob_at(None, 3900, NOW), None);
    // Unknown header.
    assert_eq!(kelvin_write_blob_at(Some(vec![0u8; 48]), 3900, NOW), None);
    // Known header, too short.
    let mut short = vec![0x43, 0x42, 0x01, 0x00];
    short.resize(31, 0);
    assert_eq!(kelvin_write_blob_at(Some(short), 3900, NOW), None);
    // Known header, no field and no insertion point.
    let mut bare = vec![0x43, 0x42, 0x01, 0x00];
    bare.resize(40, 0);
    assert_eq!(kelvin_write_blob_at(Some(bare), 3900, NOW), None);
    assert!(!kelvin_write_confirmed(None, 3900));
    let other = build_settings_template_at(3900, NOW);
    assert!(!kelvin_write_confirmed(Some(other), 4000));
}

#[test]
fn template_exact_bytes() {
    let t = build_settings_template_at(3900, NOW);
    assert_eq!(t.len(), 51);
    assert_eq!(&t[..10], &[0x43, 0x42, 0x01, 0x00, 0x0A, 0x02, 0x01, 0x00, 0x2A, 0x06]);
    assert_eq!(embedded_timestamp(&t), Some(NOW));
    // 3900 = 60 * 64 + 60: lo = (60 << 1) | 0x80 = 0xF8, hi = 60 = 0x3C.
    assert_eq!(&t[37..41], &[0xCF, 0x28, 0xF8, 0x3C]);
    assert_eq!(find_temp_marker(&t), Some(39));
    assert!(blob_holds_kelvin(&t, 3900));
    assert!(build_settings_template(1200).len() == 51);
}

#[test]
fn reset_blob_detection() {
    let mut d = vec![0u8; 16];
    assert!(!is_reset_blob(&d));
    for b in &mut d[10..15] {
        *b = 0xFF;
    }
    assert!(is_reset_blob(&d));
    // Exactly 15 bytes is not enough.
    assert!(!is_reset_blob(&d[..15]));
}

#[test]
fn state_byte_collision_overwrites_high_byte() {
    // A fresh blob whose only CA 32 sits at 15: the inserted high byte lands
    // on byte 18; at 0x15 (kelvin 1344..1407) the state-byte rewrite hits it
    // and the read-back check then fails.
    let mut d = vec![0u8; 40];
    d[0..4].copy_from_slice(&[0x43, 0x42, 0x01, 0x00]);
    d[15] = 0xCA;
    d[16] = 0x32;
    let kelvin = 1344;
    assert!(set_kelvin_in_blob_at(&mut d, kelvin, NOW));
    assert_eq!(d[18], 0x19);
    assert!(!blob_holds_kelvin(&d, kelvin));
}

#[test]
fn repair_path() {
    let mut d = build_settings_template_at(3900, NOW);
    for b in &mut d[10..15] {
        *b = 0xFF;
    }
    let out = repair_and_set_kelvin_at(d, 2000, NOW, NOW).unwrap();
    assert_eq!(embedded_timestamp(&out), Some(NOW + 1));
    assert!(blob_holds_kelvin(&out, 2000));
    assert_eq!(repair_and_set_kelvin_at(vec![0u8; 30], 2000, NOW, NOW), None);
    assert_eq!(repair_and_set_kelvin_at(vec![0xCF, 0x28, 0, 0], 2000, NOW, NOW), None);
    assert_eq!(set_strength_perdevice_fixts(None, 2000), None);
}

#[test]
fn repair_skips_unknown_layout() {
    // A temperature field, but 70 bytes: not the known layout, nothing to write.
    let mut d = build_settings_template_at(3900, NOW);
    d.resize(70, 0);
    assert!(find_temp_marker(&d).is_some());
    assert_eq!(repair_and_set_kelvin_at(d.clone(), 2000, NOW, NOW), None);
    assert_eq!(set_strength_perdevice_fixts(Some(d), 2000), None);
    // Wrong header.
    let mut d = build_settings_template_at(3900, NOW);
    d[0] = 0;
    assert_eq!(set_strength_perdevice_fixts(Some(d), 2000), None);
    // The known layout is written.
    let d = build_settings_template_at(3900, NOW);
    let w = set_strength_perdevice_fixts(Some(d), 2000).unwrap();
    assert!(blob_holds_kelvin(&w, 2000));
    assert!(kelvin_write_confirmed(Some(w), 2000));
}

#[test]
fn short_blob_fails_quietly() {
    let mut d = vec![0xCF, 0x28, 0x00, 0x00];
    let old = d.clone();
    assert!(!set_kelvin_in_blob_at(&mut d, 3900, NOW));
    assert_eq!(d, old);
    let mut d = vec![0xCF, 0x28, 0x00, 0x00];
    assert!(!win_night_shift::blob::set_kelvin_in_blob(&mut d, 3900));
    assert_eq!(d, old);
}

fn reading(data: Option<Vec<u8>>, t: Option<u64>) -> SettingsReading {
    SettingsReading { data, last_write: t }
}

#[test]
fn newest_key_wins() {
    let at = |s: u32| build_settings_template_at(strength_to_kelvin(s), NOW);
    let mut reset = at(80);
    for b in &mut reset[10..15] {
        *b = 0xFF;
    }
    let rs = vec![
        reading(Some(at(10)), Some(5)),
        reading(Some(at(20)), Some(9)),
        reading(Some(reset), Some(100)),
        reading(None, Some(200)),
        reading(Some(at(30)), Some(9)),
        reading(Some(at(40)), None),
    ];
    assert_eq!(get_strength(&rs), Some(20));
    assert_eq!(get_strength(&vec![]), None);
    assert_eq!(get_strength(&vec![reading(Some(vec![1, 2, 3]), Some(1))]), None);
    assert_eq!(get_strength(&vec![reading(Some(at(40)), None)]), Some(40));
}

#[test]
fn key_collection() {
    let names: Vec<String> = [
        "default$windows.data.bluelightreduction.settings",
        "default$windows.data.cortana.settings",
        "default$windows.data.bluelightreduction.bluelightreduction.settings",
        "{g}$windows.data.bluelightreduction.settingsperdevice",
    ]
    .iter()
    .map(|s| s.to_string())
    .collect();
    let parents = settings_parents(&names);
    assert_eq!(parents.len(), 3);
    assert_eq!(parents[0].path, format!("{CLOUDSTORE_CURRENT}\\{}", names[0]));
    assert!(!parents[0].legacy);
    assert!(parents[1].legacy);
    let with_leaves: Vec<ParentLeaves> = parents
        .into_iter()
        .map(|p| ParentLeaves { leaves: vec!["leaf".to_string()], path: p.path, legacy: p.legacy })
        .collect();
    let (modern, legacy) = collect_settings_keys(&with_leaves);
    assert_eq!(modern.len(), 2);
    assert_eq!(legacy.len(), 1);
    assert!(modern[1].ends_with("settingsperdevice\\leaf"));
    assert_eq!(all_settings_keys(modern.clone(), legacy.clone()).len(), 3);
    assert_eq!(settings_keys(modern.clone(), legacy.clone()), modern);
    assert_eq!(settings_keys(vec![], legacy.clone()), legacy);
    assert_eq!(select_keys(&modern, true), vec![modern[1].clone()]);
    assert_eq!(select_keys(&modern, false), vec![modern[0].clone()]);
}

#[test]
fn strength_write_plan() {
    let main = "a\\default$windows.data.bluelightreduction.settings\\x".to_string();
    let per = "a\\{g}$windows.data.bluelightreduction.settingsperdevice\\x".to_string();
    match set_strength_at(vec![main.clone(), per.clone()], vec![], 75, NOW) {
        StrengthWrite::Keys(t) => {
            assert_eq!(t.keys, vec![main.clone()]);
            assert_eq!(t.kelvin, strength_to_kelvin(75));
        }
        StrengthWrite::Template { .. } => panic!("expected keys"),
    }
    match set_strength_at(vec![per.clone()], vec![], 75, NOW) {
        StrengthWrite::Template { key, blob, kelvin } => {
            assert_eq!(key, SETTINGS_KEY);
            assert_eq!(kelvin, strength_to_kelvin(75));
            assert!(kelvin_write_confirmed(Some(blob.clone()), kelvin));
            assert_eq!(blob, build_settings_template_at(strength_to_kelvin(75), NOW));
        }
        StrengthWrite::Keys(_) => panic!("expected template"),
    }
    let t = set_strength_perdevice_only(vec![main.clone(), per.clone()], vec![], 0);
    assert_eq!(t.keys, vec![per]);
    assert_eq!(t.kelvin, 6500);
}

#[test]
fn strength_scale_values() {
    assert_eq!(strength_to_kelvin(150), 1200);
    assert_eq!(strength_to_kelvin(1), 6447);
    assert_eq!(kelvin_to_strength(0), 100);
    assert_eq!(kelvin_to_strength(10_000), 0);
    assert_eq!(kelvin_to_strength(3850), 50);
}

#[test]
fn classify_edge_cases() {
    assert_eq!(classify_settings_parent("$windows.data.bluelightreduction.settings"), Some(false));
    assert_eq!(classify_settings_parent("x$windows.data.bluelightreduction.foo"), None);
    assert_eq!(classify_settings_parent("x$y$windows.data.bluelightreduction.settings"), None);
}
