use forbidden_bands::convert::{
    apply_control, normalize_code, petscii_to_unicode, unicode_to_petscii_bytes, ConversionState,
};
use forbidden_bands::error::ErrorKind;
use forbidden_bands::petscii::{
    CharacterAttributes, PetsciiCodeValue, PetsciiConfig, PetsciiString, ScreenCodeValue,
};

fn screen(set: u8, value: u8) -> ScreenCodeValue {
    ScreenCodeValue { set, value }
}

/// Letters in both shift states, the spade in normal and reversed video,
/// and the shifted space
fn letters_and_cards() -> PetsciiConfig {
    let mut m = PetsciiConfig::new(String::from("test"));
    for i in 1u8..=26 {
        m.insert_petscii_to_screen(false, 0x40 + i, screen(1, i)).unwrap();
        m.insert_petscii_to_screen(true, 0x40 + i, screen(2, i)).unwrap();
        m.insert_screen_to_unicode(1, i, char::from(b'A' + i - 1)).unwrap();
        m.insert_screen_to_unicode(2, i, char::from(b'a' + i - 1)).unwrap();
        m.insert_unicode_to_screen(char::from(b'A' + i - 1), screen(1, i));
        m.insert_unicode_to_screen(char::from(b'a' + i - 1), screen(2, i));
        m.insert_screen_to_petscii(1, i, PetsciiCodeValue { attributes: 0, value: 0x40 + i })
            .unwrap();
        m.insert_screen_to_petscii(2, i, PetsciiCodeValue { attributes: 1, value: 0x40 + i })
            .unwrap();
    }
    m.insert_petscii_to_screen(false, 0x61, screen(1, 0x41)).unwrap();
    m.insert_screen_to_unicode(1, 0x41, '♠').unwrap();
    m.insert_screen_to_unicode(1, 0xc1, '♤').unwrap();
    m.insert_petscii_to_screen(false, 0xa0, screen(1, 0x60)).unwrap();
    m.insert_screen_to_unicode(1, 0x60, '\u{a0}').unwrap();
    m.insert_petscii_to_screen(false, 0x7e, screen(1, 0x5e)).unwrap();
    m.insert_screen_to_unicode(1, 0x5e, 'π').unwrap();
    m.insert_petscii_to_screen(false, 0xa1, screen(1, 0x61)).unwrap();
    m.insert_screen_to_unicode(1, 0x61, '▌').unwrap();
    m
}

#[test]
fn identity_decoding_of_every_byte() {
    let bytes: Vec<u8> = (0u8..=255).collect();
    let s = petscii_to_unicode(&bytes, false, None);
    let scalars: Vec<u32> = s.chars().map(u32::from).collect();
    let expected: Vec<u32> = (0u32..=255).collect();
    assert_eq!(scalars, expected);
}

#[test]
fn control_bytes_stand_for_themselves_without_tables() {
    let s = petscii_to_unicode(&[0x0e, 0x41, 0x8e, 0x12, 0x92], false, None);
    let scalars: Vec<u32> = s.chars().map(u32::from).collect();
    assert_eq!(scalars, vec![0x0e, 0x41, 0x8e, 0x12, 0x92]);
}

#[test]
fn uppercase_round_trip() {
    let m = letters_and_cards();
    let text = "ABCDEFGHIJKLMNOPQRSTUVWXYZ";
    let bytes = unicode_to_petscii_bytes(text, &m);
    let expected: Vec<u8> = (0x41u8..=0x5a).collect();
    assert_eq!(bytes, expected);
    assert_eq!(petscii_to_unicode(&bytes, false, Some(&m)), text);
}

#[test]
fn lowercase_is_bracketed_by_shift_codes() {
    let m = letters_and_cards();
    let text = "abcdefghijklmnopqrstuvwxyz";
    let bytes = unicode_to_petscii_bytes(text, &m);
    let mut expected: Vec<u8> = vec![0x0e];
    expected.extend(0x41u8..=0x5a);
    expected.push(0x8e);
    assert_eq!(bytes, expected);
    assert_eq!(petscii_to_unicode(&bytes, false, Some(&m)), text);
}

#[test]
fn mixed_case_shifts_in_and_out() {
    let m = letters_and_cards();
    assert_eq!(unicode_to_petscii_bytes("ABCabc", &m), vec![0x41, 0x42, 0x43, 0x0e, 0x41, 0x42, 0x43, 0x8e]);
    assert_eq!(unicode_to_petscii_bytes("aB", &m), vec![0x0e, 0x41, 0x8e, 0x42]);
    assert_eq!(unicode_to_petscii_bytes("", &m), Vec::<u8>::new());
}

#[test]
fn unmappable_characters_are_left_out() {
    let m = letters_and_cards();
    assert_eq!(unicode_to_petscii_bytes("A€b✓", &m), vec![0x41, 0x0e, 0x42, 0x8e]);
}

#[test]
fn encoded_strings_concatenate_cleanly() {
    let m = letters_and_cards();
    let first = unicode_to_petscii_bytes("xy", &m);
    let second = unicode_to_petscii_bytes("AB", &m);
    assert_eq!(*first.last().unwrap(), 0x8e);
    let mut both = first.clone();
    both.extend(second.iter());
    assert_eq!(petscii_to_unicode(&both, false, Some(&m)), "xyAB");
}

#[test]
fn duplicate_codes_decode_alike() {
    let m = letters_and_cards();
    let dec = |b: u8| petscii_to_unicode(&[b], false, Some(&m));
    assert_eq!(dec(0xc1), dec(0x61));
    assert_eq!(dec(0xc1), "♠");
    assert_eq!(dec(0xe1), dec(0xa1));
    assert_eq!(dec(0xe1), "▌");
    assert_eq!(dec(0xff), dec(0x7e));
    assert_eq!(dec(0xff), "π");
}

#[test]
fn unmapped_bytes_fall_back_to_themselves() {
    let m = letters_and_cards();
    // no PETSCII-to-screen entry: the byte itself, not its canonical code
    assert_eq!(petscii_to_unicode(&[0xd0], false, Some(&m)), "\u{d0}");
    assert_eq!(petscii_to_unicode(&[0x31], false, Some(&m)), "1");
    // an entry, but no screen-to-Unicode entry in reversed video: the
    // canonical code
    assert_eq!(petscii_to_unicode(&[0x12, 0xc1], false, Some(&m)), "♤");
    assert_eq!(petscii_to_unicode(&[0x12, 0x41], false, Some(&m)), "A");
}

#[test]
fn reversed_video_gives_outline_glyphs() {
    let m = letters_and_cards();
    let reversed = petscii_to_unicode(&[0x12, 0x61, 0x92], false, Some(&m));
    let normal = petscii_to_unicode(&[0x61], false, Some(&m));
    assert_eq!(reversed, "♤");
    assert_eq!(normal, "♠");
    assert_ne!(reversed, normal);
}

#[test]
fn trailing_pads_are_stripped() {
    let stripped = PetsciiString::<6>::from_byte_slice_strip_shifted_space(&[0x41, 0x42, 0xa0, 0xa0]).unwrap();
    assert_eq!(String::from(stripped), "AB");
    let kept = PetsciiString::<6>::from_byte_slice(&[0x41, 0x42, 0xa0, 0xa0]).unwrap();
    assert_eq!(String::from(kept), "AB\u{a0}\u{a0}");
}

#[test]
fn trailing_pads_are_stripped_with_tables() {
    let m = letters_and_cards();
    let bytes = [0x41, 0x42, 0xa0, 0xa0];
    assert_eq!(petscii_to_unicode(&bytes, true, Some(&m)), "AB");
    assert_eq!(petscii_to_unicode(&bytes, false, Some(&m)), "AB\u{a0}\u{a0}");
}

#[test]
fn canonical_codes() {
    assert_eq!(normalize_code(0), 0);
    assert_eq!(normalize_code(191), 191);
    assert_eq!(normalize_code(192), 96);
    assert_eq!(normalize_code(223), 127);
    assert_eq!(normalize_code(224), 160);
    assert_eq!(normalize_code(254), 190);
    assert_eq!(normalize_code(255), 126);
}

#[test]
fn control_bytes_move_the_state() {
    let st = ConversionState::new();
    assert_eq!(st, ConversionState { shifted: false, video: CharacterAttributes::Normal });
    let shifted = apply_control(st, 0x0e).unwrap();
    assert!(shifted.shifted);
    assert_eq!(apply_control(shifted, 0x8e).unwrap(), st);
    let reversed = apply_control(st, 0x12).unwrap();
    assert_eq!(reversed.video, CharacterAttributes::Reversed);
    assert_eq!(apply_control(reversed, 0x92).unwrap(), st);
    assert_eq!(apply_control(st, 0x41), None);
}

#[test]
fn malformed_entries_are_refused() {
    let mut m = PetsciiConfig::new(String::from("test"));
    let e = m.insert_petscii_to_screen(false, 0x41, screen(4, 1)).unwrap_err();
    assert_eq!(*e.kind(), ErrorKind::InvalidScreenSet { set: 4 });
    let e = m.insert_petscii_to_screen(true, 0x41, screen(1, 128)).unwrap_err();
    assert_eq!(*e.kind(), ErrorKind::ScreenCodeOutOfRange { value: 128 });
    let e = m.insert_screen_to_unicode(0, 1, 'a').unwrap_err();
    assert_eq!(*e.kind(), ErrorKind::InvalidScreenSet { set: 0 });
    let e = m
        .insert_screen_to_petscii(5, 1, PetsciiCodeValue { attributes: 0, value: 0x41 })
        .unwrap_err();
    assert_eq!(*e.kind(), ErrorKind::InvalidScreenSet { set: 5 });
    assert_eq!(m.get_petscii_to_screen(false, 0x41), None);
    assert_eq!(m.get_petscii_to_screen(true, 0x41), None);
    assert_eq!(m.get_screen_to_unicode(0, 1), None);
    assert_eq!(m.get_screen_to_petscii(5, 1), None);
}

#[test]
fn table_lookups_return_what_was_inserted() {
    let m = letters_and_cards();
    assert_eq!(m.get_petscii_to_screen(false, 0x41), Some(screen(1, 1)));
    assert_eq!(m.get_petscii_to_screen(true, 0x41), Some(screen(2, 1)));
    assert_eq!(m.get_screen_to_unicode(2, 3), Some('c'));
    assert_eq!(m.get_unicode_to_screen('z'), Some(screen(2, 26)));
    assert_eq!(m.get_unicode_to_screen('€'), None);
    assert_eq!(
        m.get_screen_to_petscii(2, 26),
        Some(PetsciiCodeValue { attributes: 1, value: 0x5a })
    );
    assert_eq!(m.version(), "test");
    let copy = m.clone();
    assert_eq!(copy.get_screen_to_unicode(1, 0x41), Some('♠'));
}

#[test]
fn string_walk_stops_at_the_length() {
    let ps = PetsciiString::new(2, [0x41, 0x42, 0x43]);
    let mut it = ps.into_iter();
    assert_eq!(it.remaining(), 2);
    assert_eq!(it.next(), Some(0x41));
    assert_eq!(it.next(), Some(0x42));
    assert_eq!(it.remaining(), 0);
    assert_eq!(it.next(), None);
    assert_eq!(it.next(), None);
}

#[test]
fn length_beyond_capacity_decodes_the_whole_array() {
    let ps = PetsciiString::new(6, [0x41, 0x42, 0x43]);
    assert_eq!(ps.to_unicode_string(), "ABC");
}
