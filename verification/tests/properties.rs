use me3_mod::game::Game;
use me3_mod::properties::{
    bool_property_getter, call_targets, encode_utf16, most_called_target, most_frequent,
    property_getter_pattern, PropertyGetterError, PropertyOverrides,
};

#[test]
fn utf16_encoding_matches_std() {
    for s in ["", "Game.Debug.EnableRegulationFile", "héllo", "a\u{1F600}b", "\u{10FFFF}"] {
        let expected: Vec<u16> = s.encode_utf16().collect();
        assert_eq!(encode_utf16(s), expected);
    }
    assert_eq!(encode_utf16("\u{1F600}"), vec![0xD83D, 0xDE00]);
}

#[test]
fn overridden_property_reads_back() {
    let mut overrides = PropertyOverrides::new();
    let name: Vec<u16> = "Game.Debug.EnableRegulationFile".encode_utf16().collect();
    assert_eq!(overrides.get(&name), None);
    overrides.override_game_property("Game.Debug.EnableRegulationFile", false);
    assert_eq!(overrides.get(&name), Some(false));
    overrides.override_game_property("Other", true);
    assert_eq!(overrides.get(&name), Some(false));
    overrides.override_game_property("Game.Debug.EnableRegulationFile", true);
    assert_eq!(overrides.get(&name), Some(true));
    let other: Vec<u16> = "Other".encode_utf16().collect();
    assert_eq!(overrides.get(&other), Some(true));
    overrides.insert(vec![1, 2], false);
    assert_eq!(overrides.get(&[1, 2]), Some(false));
}

#[test]
fn most_frequent_value() {
    assert_eq!(most_frequent(&vec![]), None);
    assert_eq!(most_frequent(&vec![5]), Some(5));
    assert_eq!(most_frequent(&vec![1, 2, 2, 3, 2, 1]), Some(2));
}

#[test]
fn call_target_is_relative_to_displacement_end() {
    // Displacement bytes at 4..8: +0x10 relative to offset 8.
    let text = [0u8, 0, 0, 0, 0x10, 0, 0, 0, 0, 0, 0xF0, 0xFF, 0xFF, 0xFF];
    let captures = vec![
        vec![Some((0, 8)), Some((4, 8)), None],
        vec![Some((0, 14)), None, Some((10, 14))],
        vec![Some((0, 3)), Some((0, 3)), None],
        vec![Some((0, 1))],
    ];
    let targets = call_targets(&captures, &text, 0x1000);
    assert_eq!(targets, vec![0x1000 + 8 + 0x10, 0x1000 + 14 - 0x10]);
    let wrapped = call_targets(&vec![vec![Some((0, 14)), Some((10, 14))]], &text, 0);
    assert_eq!(wrapped, vec![14u64.wrapping_sub(0x10)]);
}

#[test]
fn most_called_target_needs_a_match() {
    let text = [0u8; 4];
    assert_eq!(most_called_target(&vec![], &text, 0), Err(PropertyGetterError::NoMatches));
}

fn call_site(disp: i32, msvc: bool) -> Vec<u8> {
    let mut v = vec![0x48, 0x8d, 0x54, 0x24, 0x30, 0x48, 0x8b, 0x0d, 1, 2, 3, 4, 0xe8];
    v.extend_from_slice(&disp.to_le_bytes());
    v.extend_from_slice(&[0x88, 0x05, 9, 9, 9, 9, 0x48, 0x83, 0x7c, 0x24]);
    v.push(if msvc { 0x48 } else { 0x50 });
    v.extend_from_slice(&[0x08, 0x72, 0x11]);
    v
}

#[test]
fn property_getter_is_most_called_target() {
    let mut text = vec![0x90u8; 3];
    let first = text.len() + 17;
    text.extend(call_site(0x100, false));
    text.extend(vec![0xCC; 5]);
    let second = text.len() + 17;
    text.extend(call_site(0x100 - (second as i32 - first as i32), false));
    let third = text.len() + 17;
    text.extend(call_site(0x40, false));
    let base = 0x14000_0000u64;
    let getter = bool_property_getter(Game::EldenRing, &text, base);
    assert_eq!(getter, Ok(base + first as u64 + 0x100));
    assert_ne!(getter, Ok(base + third as u64 + 0x40));
    assert_eq!(bool_property_getter(Game::DarkSouls3, &text, base), Err(PropertyGetterError::NoMatches));
}

#[test]
fn property_getter_pattern_depends_on_layout() {
    let ds3 = property_getter_pattern(Game::DarkSouls3);
    let er = property_getter_pattern(Game::EldenRing);
    assert!(ds3.contains("\\x24\\x48\\x08"));
    assert!(er.contains("\\x24\\x50\\x08"));
    let mut text = vec![0u8; 2];
    text.extend(call_site(-8, true));
    assert_eq!(bool_property_getter(Game::DarkSouls3, &text, 0x100), Ok(0x100 + 2 + 17 - 8));
}
