use forbidden_bands::error::ErrorKind;
use forbidden_bands::petscii::{PetsciiCodeValue, PetsciiConfig, PetsciiString, ScreenCodeValue};
use forbidden_bands::SystemConfig;

fn screen(set: u8, value: u8) -> ScreenCodeValue {
    ScreenCodeValue { set, value }
}

fn code(attributes: u8, value: u8) -> PetsciiCodeValue {
    PetsciiCodeValue { attributes, value }
}

/// A part of the Commodore 64 character maps: letters, a few symbols,
/// the playing card suits and two block graphics
fn c64_tables() -> SystemConfig {
    let mut m = PetsciiConfig::new(String::from("0.2.0"));
    for i in 1u8..=26 {
        m.insert_petscii_to_screen(false, 0x40 + i, screen(1, i)).unwrap();
        m.insert_petscii_to_screen(true, 0x40 + i, screen(2, i)).unwrap();
        m.insert_screen_to_unicode(1, i, char::from(b'A' + i - 1)).unwrap();
        m.insert_screen_to_unicode(2, i, char::from(b'a' + i - 1)).unwrap();
        m.insert_unicode_to_screen(char::from(b'A' + i - 1), screen(1, i));
        m.insert_unicode_to_screen(char::from(b'a' + i - 1), screen(2, i));
        m.insert_screen_to_petscii(1, i, code(0, 0x40 + i)).unwrap();
        m.insert_screen_to_petscii(2, i, code(1, 0x40 + i)).unwrap();
    }
    let symbols: [(u8, u8, char); 16] = [
        (0x62, 0x42, '\u{1fb72}'),
        (0x67, 0x47, '\u{1fb75}'),
        (0x68, 0x48, '\u{1fb7b}'),
        (0x74, 0x54, '\u{1fb70}'),
        (0x79, 0x59, '\u{1fb76}'),
        (0x7d, 0x5d, '\u{1fb73}'),
        (0x5c, 0x1c, '£'),
        (0x5e, 0x1e, '↑'),
        (0x5f, 0x1f, '←'),
        (0x61, 0x41, '♠'),
        (0x73, 0x53, '♥'),
        (0x78, 0x58, '♣'),
        (0x7a, 0x5a, '♦'),
        (0xa0, 0x60, '\u{a0}'),
        (0xb2, 0x72, '┬'),
        (0xb9, 0x79, '\u{2583}'),
    ];
    for (p, s, c) in symbols {
        m.insert_petscii_to_screen(false, p, screen(1, s)).unwrap();
        m.insert_screen_to_unicode(1, s, c).unwrap();
    }
    let reversed: [(u8, char); 4] = [(0xc1, '♤'), (0xd3, '♡'), (0xd8, '♧'), (0xda, '♢')];
    for (s, c) in reversed {
        m.insert_screen_to_unicode(1, s, c).unwrap();
    }
    SystemConfig { version: String::from("0.2.0"), character_set_map: m }
}

#[test]
fn petscii_struct_works() {
    let ps = PetsciiString::new(3, [0x41, 0x42, 0x43]);
    assert_eq!(ps.len, 3);
    assert_eq!(ps.data, [0x41, 0x42, 0x43]);
}

#[test]
fn petscii_with_config_works() {
    let config = c64_tables();
    let ps = PetsciiString::new_with_config(6, [0x41, 0x42, 0x43, 0x5c, 0x5e, 0x5f], &config);
    let mut s: String = String::from(ps);
    assert_eq!(s.pop().unwrap(), '←');
    assert_eq!(s.pop().unwrap(), '↑');
    assert_eq!(s.pop().unwrap(), '£');
    assert_eq!(s.pop().unwrap(), 'C');
    assert_eq!(s.pop().unwrap(), 'B');
    assert_eq!(s.pop().unwrap(), 'A');
}

#[test]
fn petscii_with_config_unmapped_character_works() {
    let config = c64_tables();
    let ps = PetsciiString::new_with_config(2, [0x41, 0xb2], &config);
    let mut s: String = String::from(ps);
    assert_eq!(s.pop().unwrap(), '┬');
    assert_eq!(s.pop().unwrap(), 'A');
}

#[test]
fn petscii_without_config_works() {
    let ps = PetsciiString::new(6, [0x41, 0x42, 0x43, 0x5c, 0x5e, 0x5f]);
    let mut s: String = String::from(ps);
    assert_eq!(s.pop().unwrap(), '_');
    assert_eq!(s.pop().unwrap(), '^');
    assert_eq!(s.pop().unwrap(), '\\');
    assert_eq!(s.pop().unwrap(), 'C');
    assert_eq!(s.pop().unwrap(), 'B');
    assert_eq!(s.pop().unwrap(), 'A');
}

#[test]
fn petscii_len_unfilled_works() {
    let ps = PetsciiString::new(6, [0x41, 0x42, 0x43]);

    assert_eq!(ps.len(), 6);
}

#[test]
fn petscii_len_7bit_characters_works() {
    let ps = PetsciiString::new(6, [0x41, 0x42, 0x43, 0x41, 0x42, 0x43]);

    assert_eq!(ps.len(), 6);
}

#[test]
fn petscii_len_8bit_characters_works() {
    let ps = PetsciiString::new(7, [0xa5, 0x74, 0x67, 0x7d, 0x68, 0x79, 0xa7]);

    assert_eq!(ps.len(), 7);
}

#[test]
fn petscii_len_from_8bit_character_slice_works() {
    let ps = PetsciiString::new(7, [0xa5, 0x74, 0x67, 0x7d, 0x68, 0x79, 0xa7]);
    let s: String = String::from(ps);

    assert_eq!(s.len(), 9);
    assert_eq!(s.chars().count(), 7);
}

#[test]
fn petscii_len_from_8bit_character_slice_with_config_works() {
    let config = c64_tables();

    let ps = PetsciiString::new_with_config(6, [0x74, 0x67, 0x62, 0x7d, 0x68, 0x79], &config);
    let s: String = String::from(ps);

    // All six characters are mapped to 32-bit unicode characters
    assert_eq!(s.len(), 24);
    assert_eq!(s.chars().count(), 6);
}

#[test]
fn petscii_test_shifted_lowercase_characters_works() {
    let data: [u8; 28] = [
        0x0e, 0x41, 0x42, 0x43, 0x44, 0x45, 0x46, 0x47, 0x48, 0x49, 0x4a, 0x4b, 0x4c, 0x4d,
        0x4e, 0x4f, 0x50, 0x51, 0x52, 0x53, 0x54, 0x55, 0x56, 0x57, 0x58, 0x59, 0x5a, 0x8e,
    ];
    let config = c64_tables();

    let ps = PetsciiString::new_with_config(28, data, &config);

    assert_eq!(ps.len(), 28);

    let s: String = String::from(ps);
    let expected = "abcdefghijklmnopqrstuvwxyz";

    assert_eq!(s, expected);
}

#[test]
fn from_petscii_with_block_elements_graphic_character() {
    let data: [u8; 0x01] = [0xB9];
    let config = c64_tables();

    let ps = PetsciiString::new_with_config(1, data, &config);

    let s: String = String::from(ps);
    let c = s.chars().nth(0).unwrap();
    let expected: char = char::from_u32(0x2583).unwrap();

    assert_eq!(c, expected);
}

#[test]
fn test_petscii_7bit_playing_cards_to_unicode() {
    let data: [u8; 4] = [0x61, 0x73, 0x78, 0x7a];
    let config = c64_tables();

    let ps = PetsciiString::new_with_config(4, data, &config);
    let s: String = String::from(ps);
    let expected = "♠♥♣♦";

    assert_eq!(s, expected);
}

#[test]
fn test_petscii_8bit_playing_cards_to_unicode() {
    let data: [u8; 4] = [0xc1, 0xd3, 0xd8, 0xda];
    let config = c64_tables();

    let ps = PetsciiString::new_with_config(4, data, &config);
    let s: String = String::from(ps);
    let expected = "♠♥♣♦";

    assert_eq!(s, expected);
}

#[test]
fn test_petscii_7bit_reversed_video_playing_cards_to_unicode() {
    let data: [u8; 6] = [0x12, 0x61, 0x73, 0x78, 0x7a, 0x92];
    let config = c64_tables();

    let ps = PetsciiString::new_with_config(6, data, &config);
    let s: String = String::from(ps);
    let expected = "♤♡♧♢";

    assert_eq!(s, expected);
}

#[test]
fn test_petscii_8bit_reversed_video_playing_cards_to_unicode() {
    let data: [u8; 6] = [0x12, 0xc1, 0xd3, 0xd8, 0xda, 0x92];
    let config = c64_tables();

    let ps = PetsciiString::new_with_config(6, data, &config);
    let s: String = String::from(ps);
    let expected = "♤♡♧♢";

    assert_eq!(s, expected);
}

#[test]
fn into_iter_works() {
    let config = c64_tables();

    let ps = PetsciiString::new_with_config(3, [0x41, 0x42, 0x43], &config);

    let mut iter = ps.into_iter();

    assert_eq!(iter.next(), Some(0x41));
    assert_eq!(iter.next(), Some(0x42));
    assert_eq!(iter.next(), Some(0x43));
    assert_eq!(iter.next(), None);
}

#[test]
fn petscii_test_from_unicode_uppercase_characters_works() {
    let uppercase = "ABCDEFGHIJKLMNOPQRSTUVWXYZ";
    let s: String = String::from(uppercase);

    let expected: [u8; 26] = [
        0x41, 0x42, 0x43, 0x44, 0x45, 0x46, 0x47, 0x48, 0x49, 0x4a, 0x4b, 0x4c, 0x4d, 0x4e,
        0x4f, 0x50, 0x51, 0x52, 0x53, 0x54, 0x55, 0x56, 0x57, 0x58, 0x59, 0x5a,
    ];

    let config = c64_tables();

    let ps = PetsciiString::<26>::from_str_with_config(&s, &config).unwrap();

    assert_eq!(ps.len(), 26);
    assert_eq!(ps.data, expected);

    let s: String = String::from(ps);

    assert_eq!(s, uppercase);
}

#[test]
fn petscii_test_from_unicode_lowercase_characters_works() {
    let lowercase = "abcdefghijklmnopqrstuvwxyz";
    let s: String = String::from(lowercase);

    let expected: [u8; 28] = [
        0x0e, 0x41, 0x42, 0x43, 0x44, 0x45, 0x46, 0x47, 0x48, 0x49, 0x4a, 0x4b, 0x4c, 0x4d,
        0x4e, 0x4f, 0x50, 0x51, 0x52, 0x53, 0x54, 0x55, 0x56, 0x57, 0x58, 0x59, 0x5a, 0x8e,
    ];

    let config = c64_tables();

    let ps = PetsciiString::<28>::from_str_with_config(&s, &config).unwrap();

    assert_eq!(ps.len(), 28);
    assert_eq!(ps.data, expected);

    let s: String = String::from(ps);

    assert_eq!(s, lowercase);
}

#[test]
fn oversize_slice_is_refused() {
    let r = PetsciiString::<3>::from_byte_slice(&[1, 2, 3, 4]);
    match r {
        Ok(_) => panic!("four bytes must not fit a capacity of three"),
        Err(e) => assert_eq!(*e.kind(), ErrorKind::Oversize { len: 4, capacity: 3 }),
    }
}

#[test]
fn oversize_encoding_is_refused() {
    let config = c64_tables();
    let r = PetsciiString::<3>::from_str_with_config("abc", &config);
    match r {
        Ok(_) => panic!("five encoded bytes must not fit a capacity of three"),
        Err(e) => assert_eq!(*e.kind(), ErrorKind::Oversize { len: 5, capacity: 3 }),
    }
}

#[test]
fn short_slice_is_zero_filled() {
    let ps = PetsciiString::<5>::from_byte_slice(&[0x41, 0x42]).unwrap();
    assert_eq!(ps.len(), 2);
    assert_eq!(ps.data, [0x41, 0x42, 0, 0, 0]);
    assert!(!ps.strip_shifted_space);
    assert_eq!(String::from(ps), "AB");
    let empty = PetsciiString::<4>::from_byte_slice(&[]).unwrap();
    assert!(empty.is_empty());
    assert_eq!(String::from(empty), "");
}
