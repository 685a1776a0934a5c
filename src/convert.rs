//! Conversion between PETSCII bytes and Unicode text
//!
//! Decoding walks the bytes in order with a small state machine of two
//! independent axes, shift and video.  Control bytes move the machine
//! and produce no character; other bytes are looked up through the
//! PETSCII-to-screen and screen-to-Unicode maps of a table set.
//! Encoding goes the other way through the Unicode-to-screen and
//! screen-to-PETSCII maps and brackets shifted runs with shift codes.
use vstd::prelude::*;

use crate::petscii::{
    lookup, CharacterAttributes, PetsciiConfig, PetsciiCodeValue, TableSetModel, is_shifted_attribute,
};

verus! {

/// Control byte: switch to the shifted (lowercase and uppercase) set
pub const SHIFT_IN: u8 = 0x0E;

/// Control byte: switch to the unshifted (uppercase and graphics) set
pub const SHIFT_OUT: u8 = 0x8E;

/// Control byte: reverse video on
pub const REVERSE_ON: u8 = 0x12;

/// Control byte: reverse video off
pub const REVERSE_OFF: u8 = 0x92;

/// The shifted space, which CBM DOS uses to pad file and disk names
pub const SHIFTED_SPACE: u8 = 0xA0;

/// Offset of a reversed-video screen code from its normal one
pub const REVERSE_OFFSET: u8 = 128;

/// The state carried from byte to byte while converting
#[derive(Clone, Copy, Debug, PartialEq, Eq, Structural)]
pub struct ConversionState {
    /// Whether the shifted character set is selected
    pub shifted: bool,
    /// Whether characters are in normal or reversed video
    pub video: CharacterAttributes,
}

/// The state every conversion starts in: unshifted, normal video
pub open spec fn initial_state() -> ConversionState {
    ConversionState { shifted: false, video: CharacterAttributes::Normal }
}

impl ConversionState {
    /// The state every conversion starts in: unshifted, normal video
    pub fn new() -> (st: ConversionState)
        ensures
            st == initial_state(),
    {
        ConversionState { shifted: false, video: CharacterAttributes::Normal }
    }
}

/// The state a control byte moves to, or `None` for a byte that is not
/// a control byte
pub open spec fn control_transition(st: ConversionState, b: u8) -> Option<ConversionState> {
    if b == SHIFT_IN {
        Some(ConversionState { shifted: true, ..st })
    } else if b == SHIFT_OUT {
        Some(ConversionState { shifted: false, ..st })
    } else if b == REVERSE_ON {
        Some(ConversionState { video: CharacterAttributes::Reversed, ..st })
    } else if b == REVERSE_OFF {
        Some(ConversionState { video: CharacterAttributes::Normal, ..st })
    } else {
        None
    }
}

/// Whether a byte is one of the four control bytes
pub open spec fn is_control(b: u8) -> bool {
    b == SHIFT_IN || b == SHIFT_OUT || b == REVERSE_ON || b == REVERSE_OFF
}

/// The state a control byte moves to, or `None` for a byte that is not
/// a control byte
pub fn apply_control(st: ConversionState, b: u8) -> (r: Option<ConversionState>)
    ensures
        r == control_transition(st, b),
        r is Some <==> is_control(b),
{
    if b == SHIFT_IN {
        Some(ConversionState { shifted: true, video: st.video })
    } else if b == SHIFT_OUT {
        Some(ConversionState { shifted: false, video: st.video })
    } else if b == REVERSE_ON {
        Some(ConversionState { shifted: st.shifted, video: CharacterAttributes::Reversed })
    } else if b == REVERSE_OFF {
        Some(ConversionState { shifted: st.shifted, video: CharacterAttributes::Normal })
    } else {
        None
    }
}

/// The canonical PETSCII code of a byte: 192-223 repeat 96-127, 224-254
/// repeat 160-190 and 255 repeats 126
pub open spec fn normalize(b: u8) -> u8 {
    if b <= 191 {
        b
    } else if b <= 223 {
        (b - 96) as u8
    } else if b <= 254 {
        (b - 64) as u8
    } else {
        126
    }
}

/// The canonical PETSCII code of a byte
pub fn normalize_code(b: u8) -> (r: u8)
    ensures
        r == normalize(b),
{
    if b <= 191 {
        b
    } else if b <= 223 {
        b - 96
    } else if b <= 254 {
        b - 64
    } else {
        126
    }
}

/// The Unicode scalar value with the same number as a byte
pub open spec fn identity_char(b: u8) -> char {
    b as char
}

/// The Unicode scalar value with the same number as a byte
pub fn byte_to_char(b: u8) -> (c: char)
    ensures
        c == identity_char(b),
        c as u32 == b as u32,
{
    b as char
}

/// The screen code a table entry stands for in the given video state
pub open spec fn video_screen_code(value: u8, video: CharacterAttributes) -> u8 {
    if video == CharacterAttributes::Reversed {
        (value + REVERSE_OFFSET) as u8
    } else {
        value
    }
}

/// The character a byte that is not a control byte decodes to
///
/// The canonical code is looked up in the PETSCII-to-screen map of the
/// current shift state; without an entry the byte itself is the
/// result.  With one, the screen code (moved by 128 in reversed video)
/// is looked up in the screen-to-Unicode map; without an entry there the
/// canonical code is the result.
pub open spec fn decode_mapped(m: TableSetModel, st: ConversionState, b: u8) -> char {
    let n = normalize(b);
    match lookup(m.petscii_to_screen(st.shifted), n) {
        None => identity_char(b),
        Some(sc) => match lookup(
            m.screen_to_unicode,
            (sc.set, video_screen_code(sc.value, st.video)),
        ) {
            Some(c) => c,
            None => identity_char(n),
        },
    }
}

/// One step of decoding: the next state, and the character produced,
/// if any.  Without a table set every byte stands for itself.
pub open spec fn decode_step(cfg: Option<TableSetModel>, st: ConversionState, b: u8) -> (
    ConversionState,
    Option<char>,
) {
    match cfg {
        None => (st, Some(identity_char(b))),
        Some(m) => match control_transition(st, b) {
            Some(next) => (next, None),
            None => (st, Some(decode_mapped(m, st, b))),
        },
    }
}

/// Decoding of a byte sequence from a state; with `strip` set, every
/// shifted space is skipped
pub open spec fn decode_from(
    cfg: Option<TableSetModel>,
    strip: bool,
    st: ConversionState,
    bytes: Seq<u8>,
) -> Seq<char>
    decreases bytes.len(),
{
    if bytes.len() == 0 {
        Seq::empty()
    } else if strip && bytes[0] == SHIFTED_SPACE {
        decode_from(cfg, strip, st, bytes.drop_first())
    } else {
        let (next, out) = decode_step(cfg, st, bytes[0]);
        let rest = decode_from(cfg, strip, next, bytes.drop_first());
        match out {
            Some(c) => seq![c] + rest,
            None => rest,
        }
    }
}

/// Decoding of a byte sequence, starting unshifted in normal video
pub open spec fn decode(cfg: Option<TableSetModel>, strip: bool, bytes: Seq<u8>) -> Seq<char> {
    decode_from(cfg, strip, initial_state(), bytes)
}

/// The state decoding is in after a byte sequence
pub open spec fn state_after(
    cfg: Option<TableSetModel>,
    strip: bool,
    st: ConversionState,
    bytes: Seq<u8>,
) -> ConversionState
    decreases bytes.len(),
{
    if bytes.len() == 0 {
        st
    } else if strip && bytes[0] == SHIFTED_SPACE {
        state_after(cfg, strip, st, bytes.drop_first())
    } else {
        state_after(cfg, strip, decode_step(cfg, st, bytes[0]).0, bytes.drop_first())
    }
}

/// The shift state the encoder is in after a character sequence, before
/// it shifts back out at the end
pub open spec fn encoder_shift_after(m: TableSetModel, shifted: bool, chars: Seq<char>) -> bool
    decreases chars.len(),
{
    if chars.len() == 0 {
        shifted
    } else {
        match encode_char(m, chars[0]) {
            None => encoder_shift_after(m, shifted, chars.drop_first()),
            Some(p) => encoder_shift_after(m, is_shifted_attribute(p.attributes), chars.drop_first()),
        }
    }
}

/// The model of an optional table set
pub open spec fn model_of(character_map: Option<&PetsciiConfig>) -> Option<TableSetModel> {
    match character_map {
        Some(c) => Some(c@),
        None => None,
    }
}

/// Relies on `String::push`: the character is appended at the end.
#[verifier::external_body]
fn push_char(s: &mut String, c: char)
    ensures
        final(s)@ == old(s)@.push(c),
{
    s.push(c)
}

/// The character a byte that is not a control byte decodes to
fn decode_mapped_byte(cfg: &PetsciiConfig, st: ConversionState, b: u8) -> (c: char)
    ensures
        c == decode_mapped(cfg@, st, b),
{
    let n = normalize_code(b);
    match cfg.get_petscii_to_screen(st.shifted, n) {
        None => byte_to_char(b),
        Some(sc) => {
            let code = match st.video {
                CharacterAttributes::Reversed => sc.value + REVERSE_OFFSET,
                CharacterAttributes::Normal => sc.value,
            };
            match cfg.get_screen_to_unicode(sc.set, code) {
                Some(c) => c,
                None => byte_to_char(n),
            }
        },
    }
}

/// Decode PETSCII bytes into Unicode text
///
/// Bytes are taken in order from an unshifted, normal-video state.  With
/// `strip_shifted_space` set every shifted space (0xA0) is dropped.
/// Without a character map every byte becomes the Unicode scalar value
/// of the same number; with one, control bytes switch the shift and
/// video state and the other bytes go through the map.
pub fn petscii_to_unicode(
    bytes: &[u8],
    strip_shifted_space: bool,
    character_map: Option<&PetsciiConfig>,
) -> (r: String)
    ensures
        r@ == decode(model_of(character_map), strip_shifted_space, bytes@),
{
    let ghost cfg = model_of(character_map);
    let mut out = String::new();
    let mut st = ConversionState::new();
    let n = bytes.len();
    let mut i: usize = 0;
    proof {
        assert(bytes@.subrange(0, n as int) =~= bytes@);
        assert(Seq::<char>::empty() + decode(cfg, strip_shifted_space, bytes@) =~= decode(
            cfg,
            strip_shifted_space,
            bytes@,
        ));
    }
    while i < n
        invariant
            n == bytes@.len(),
            i <= n,
            cfg == model_of(character_map),
            out@ + decode_from(cfg, strip_shifted_space, st, bytes@.subrange(i as int, n as int))
                == decode(cfg, strip_shifted_space, bytes@),
        decreases n - i,
    {
        let b = bytes[i];
        let ghost rest = bytes@.subrange(i as int, n as int);
        let ghost prev = out@;
        let ghost prev_st = st;
        assert(rest.drop_first() =~= bytes@.subrange(i + 1, n as int));
        if strip_shifted_space && b == SHIFTED_SPACE {
        } else {
            match character_map {
                None => {
                    push_char(&mut out, byte_to_char(b));
                },
                Some(m) => {
                    match apply_control(st, b) {
                        Some(next) => {
                            st = next;
                        },
                        None => {
                            push_char(&mut out, decode_mapped_byte(m, st, b));
                        },
                    }
                },
            }
        }
        proof {
            let tail = bytes@.subrange(i + 1, n as int);
            if !(strip_shifted_space && b == SHIFTED_SPACE) {
                let (next, o) = decode_step(cfg, prev_st, b);
                assert(st == next);
                if let Some(c) = o {
                    assert(out@ == prev.push(c));
                    assert(prev + (seq![c] + decode_from(cfg, strip_shifted_space, st, tail)) =~= out@
                        + decode_from(cfg, strip_shifted_space, st, tail));
                } else {
                    assert(out@ == prev);
                }
            }
        }
        i = i + 1;
    }
    proof {
        assert(bytes@.subrange(n as int, n as int) =~= Seq::<u8>::empty());
        assert(out@ + Seq::<char>::empty() =~= out@);
    }
    out
}

/// The PETSCII code a character encodes to: its screen code from the
/// Unicode-to-screen map, then that screen code's PETSCII code.  `None`
/// where either map has no entry.
pub open spec fn encode_char(m: TableSetModel, c: char) -> Option<PetsciiCodeValue> {
    match lookup(m.unicode_to_screen, c as u32) {
        None => None,
        Some(sc) => lookup(m.screen_to_petscii, (sc.set, sc.value)),
    }
}

/// The shift code needed to go from one shift state to another, if any
pub open spec fn shift_prefix(current: bool, need: bool) -> Seq<u8> {
    if need && !current {
        seq![SHIFT_IN]
    } else if !need && current {
        seq![SHIFT_OUT]
    } else {
        Seq::empty()
    }
}

/// Encoding of a character sequence from a shift state
///
/// Characters without a mapping are left out.  Before each code the
/// shift state is switched to the one the code needs, and a shifted
/// state is switched back at the end.
pub open spec fn encode_from(m: TableSetModel, shifted: bool, chars: Seq<char>) -> Seq<u8>
    decreases chars.len(),
{
    if chars.len() == 0 {
        shift_prefix(shifted, false)
    } else {
        match encode_char(m, chars[0]) {
            None => encode_from(m, shifted, chars.drop_first()),
            Some(p) => {
                let need = is_shifted_attribute(p.attributes);
                shift_prefix(shifted, need) + seq![p.value] + encode_from(
                    m,
                    need,
                    chars.drop_first(),
                )
            },
        }
    }
}

/// Encoding of a character sequence, starting and ending unshifted
pub open spec fn encode(m: TableSetModel, chars: Seq<char>) -> Seq<u8> {
    encode_from(m, false, chars)
}

/// The PETSCII code a character encodes to
fn encode_character(cfg: &PetsciiConfig, c: char) -> (r: Option<PetsciiCodeValue>)
    ensures
        r == encode_char(cfg@, c),
{
    match cfg.get_unicode_to_screen(c) {
        None => None,
        Some(sc) => cfg.get_screen_to_petscii(sc.set, sc.value),
    }
}

/// Encode Unicode text into PETSCII bytes
///
/// Characters that the character map cannot encode are left out.  The
/// output starts in the unshifted set, shifts in (0x0E) before a code of
/// the shifted set, shifts out (0x8E) before a code of the unshifted
/// set, and always ends unshifted, so that encoded strings can be
/// concatenated.
pub fn unicode_to_petscii_bytes(s: &str, character_map: &PetsciiConfig) -> (r: Vec<u8>)
    ensures
        r@ == encode(character_map@, s@),
{
    let ghost m = character_map@;
    let mut out: Vec<u8> = Vec::new();
    let mut shifted = false;
    proof {
        assert(Seq::<u8>::empty() + encode(m, s@) =~= encode(m, s@));
        assert(s@.subrange(0, s@.len() as int) =~= s@);
    }
    for c in it: s.chars()
        invariant
            m == character_map@,
            it.seq() == s@,
            out@ + encode_from(m, shifted, s@.subrange(it.index() as int, s@.len() as int)) == encode(m, s@),
    {
        let ghost prev = out@;
        let ghost prev_shifted = shifted;
        let ghost i = it.index();
        assert(s@.subrange(i as int, s@.len() as int).drop_first() =~= s@.subrange(i + 1, s@.len() as int));
        match encode_character(character_map, c) {
            None => {},
            Some(p) => {
                let need = p.is_shifted();
                if need && !shifted {
                    out.push(SHIFT_IN);
                } else if !need && shifted {
                    out.push(SHIFT_OUT);
                }
                out.push(p.value);
                shifted = need;
                proof {
                    let tail = encode_from(m, shifted, s@.subrange(i + 1, s@.len() as int));
                    assert(prev + (shift_prefix(prev_shifted, need) + seq![p.value] + tail) =~= out@ + tail);
                }
            },
        }
    }
    if shifted {
        out.push(SHIFT_OUT);
    }
    proof {
        assert(s@.subrange(s@.len() as int, s@.len() as int) =~= Seq::<char>::empty());
    }
    out
}

} // verus!
