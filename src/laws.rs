//! Laws of PETSCII conversion, stated over the conversion specifications
//! and proved
use vstd::prelude::*;

use crate::convert::{
    ConversionState, REVERSE_OFF, REVERSE_ON, SHIFTED_SPACE, SHIFT_IN, SHIFT_OUT, control_transition, decode, decode_from,
    decode_mapped, decode_step, encode, encode_char, encode_from, encoder_shift_after,
    identity_char, initial_state, is_control, normalize, shift_prefix, state_after,
};
use crate::petscii::{CharacterAttributes, TableSetModel, is_shifted_attribute};

verus! {

/// Decoding a concatenation is decoding the first part, then the second
/// from the state the first part leaves
pub proof fn lemma_decode_concat(
    cfg: Option<TableSetModel>,
    strip: bool,
    st: ConversionState,
    a: Seq<u8>,
    b: Seq<u8>,
)
    ensures
        decode_from(cfg, strip, st, a + b) == decode_from(cfg, strip, st, a) + decode_from(
            cfg,
            strip,
            state_after(cfg, strip, st, a),
            b,
        ),
        state_after(cfg, strip, st, a + b) == state_after(
            cfg,
            strip,
            state_after(cfg, strip, st, a),
            b,
        ),
    decreases a.len(),
{
    if a.len() == 0 {
        assert(a + b =~= b);
        assert(Seq::<char>::empty() + decode_from(cfg, strip, st, b) =~= decode_from(
            cfg,
            strip,
            st,
            b,
        ));
    } else {
        assert((a + b)[0] == a[0]);
        assert((a + b).drop_first() =~= a.drop_first() + b);
        let next = if strip && a[0] == SHIFTED_SPACE {
            st
        } else {
            decode_step(cfg, st, a[0]).0
        };
        lemma_decode_concat(cfg, strip, next, a.drop_first(), b);
        let tail = decode_from(cfg, strip, state_after(cfg, strip, st, a), b);
        if !(strip && a[0] == SHIFTED_SPACE) {
            if let Some(c) = decode_step(cfg, st, a[0]).1 {
                assert(seq![c] + (decode_from(cfg, strip, next, a.drop_first()) + tail) =~= (seq![c]
                    + decode_from(cfg, strip, next, a.drop_first())) + tail);
            }
        }
    }
}

/// Without a character map, decoding maps every byte to the Unicode
/// scalar value of the same number, from any state
proof fn lemma_identity_from(st: ConversionState, bytes: Seq<u8>)
    ensures
        decode_from(None, false, st, bytes) == bytes.map_values(|b: u8| identity_char(b)),
    decreases bytes.len(),
{
    if bytes.len() > 0 {
        lemma_identity_from(st, bytes.drop_first());
        assert(bytes.map_values(|b: u8| identity_char(b)) =~= seq![identity_char(bytes[0])]
            + bytes.drop_first().map_values(|b: u8| identity_char(b)));
    } else {
        assert(bytes.map_values(|b: u8| identity_char(b)) =~= Seq::<char>::empty());
    }
}

/// Identity decoding: without a character map and without shifted-space
/// stripping, decoding yields one character per byte, each the Unicode
/// scalar value with the byte's number
pub proof fn lemma_identity_decoding(bytes: Seq<u8>)
    ensures
        decode(None, false, bytes).len() == bytes.len(),
        forall|i: int|
            0 <= i < bytes.len() ==> #[trigger] decode(None, false, bytes)[i] as u32 == bytes[i]
                as u32,
{
    lemma_identity_from(initial_state(), bytes);
}

/// Whether a character survives encoding and decoding on its own: the
/// tables encode it to a code that is not a control byte and that, read
/// in the shift state it asks for and in normal video, decodes back to it
pub open spec fn round_trips(m: TableSetModel, c: char) -> bool {
    match encode_char(m, c) {
        None => false,
        Some(p) => {
            let st = ConversionState {
                shifted: is_shifted_attribute(p.attributes),
                video: CharacterAttributes::Normal,
            };
            !is_control(p.value) && decode_mapped(m, st, p.value) == c
        },
    }
}

proof fn lemma_round_trip_from(m: TableSetModel, shifted: bool, s: Seq<char>)
    requires
        forall|i: int| 0 <= i < s.len() ==> #[trigger] round_trips(m, s[i]),
    ensures
        decode_from(
            Some(m),
            false,
            ConversionState { shifted, video: CharacterAttributes::Normal },
            encode_from(m, shifted, s),
        ) == s,
    decreases s.len(),
{
    let st = ConversionState { shifted, video: CharacterAttributes::Normal };
    if s.len() == 0 {
        let bytes = shift_prefix(shifted, false);
        if shifted {
            assert(bytes.drop_first() =~= Seq::<u8>::empty());
            assert(bytes[0] == SHIFT_OUT);
            assert(decode_step(Some(m), st, bytes[0]).1 is None);
            let next = decode_step(Some(m), st, bytes[0]).0;
            assert(decode_from(Some(m), false, next, bytes.drop_first()) =~= Seq::<char>::empty());
        } else {
            assert(bytes =~= Seq::<u8>::empty());
        }
        assert(s =~= Seq::<char>::empty());
    } else {
        assert(round_trips(m, s[0]));
        let p = encode_char(m, s[0])->0;
        let need = is_shifted_attribute(p.attributes);
        let rest = encode_from(m, need, s.drop_first());
        assert forall|i: int| 0 <= i < s.drop_first().len() implies #[trigger] round_trips(
            m,
            s.drop_first()[i],
        ) by {
            assert(round_trips(m, s[i + 1]));
        }
        lemma_round_trip_from(m, need, s.drop_first());
        let st2 = ConversionState { shifted: need, video: CharacterAttributes::Normal };
        let tail = seq![p.value] + rest;
        assert(tail[0] == p.value);
        assert(tail.drop_first() =~= rest);
        assert(decode_from(Some(m), false, st2, tail) =~= seq![s[0]] + s.drop_first());
        assert(seq![s[0]] + s.drop_first() =~= s);
        let bytes = shift_prefix(shifted, need) + tail;
        assert(encode_from(m, shifted, s) == bytes);
        if need != shifted {
            assert(bytes[0] == (if need { SHIFT_IN } else { SHIFT_OUT }));
            assert(bytes.drop_first() =~= tail);
            assert(control_transition(st, bytes[0]) == Some(st2));
            assert(decode_step(Some(m), st, bytes[0]) == (st2, None::<char>));
            assert(decode_from(Some(m), false, st, bytes) == decode_from(Some(m), false, st2, tail));
        } else {
            assert(bytes =~= tail);
            assert(st == st2);
        }
    }
}

/// Round trip: text whose every character round trips on its own
/// decodes, after encoding, to itself
pub proof fn lemma_round_trip(m: TableSetModel, s: Seq<char>)
    requires
        forall|i: int| 0 <= i < s.len() ==> #[trigger] round_trips(m, s[i]),
    ensures
        decode(Some(m), false, encode(m, s)) == s,
{
    lemma_round_trip_from(m, false, s);
}

/// Whether no character of a text encodes to a control byte
pub open spec fn encodes_without_control(m: TableSetModel, s: Seq<char>) -> bool {
    forall|i: int|
        0 <= i < s.len() ==> (#[trigger] encode_char(m, s[i]) matches Some(p) ==> !is_control(
            p.value,
        ))
}

proof fn lemma_encoding_resets_from(m: TableSetModel, shifted: bool, s: Seq<char>)
    requires
        encodes_without_control(m, s),
    ensures
        state_after(
            Some(m),
            false,
            ConversionState { shifted, video: CharacterAttributes::Normal },
            encode_from(m, shifted, s),
        ) == initial_state(),
    decreases s.len(),
{
    let st = ConversionState { shifted, video: CharacterAttributes::Normal };
    if s.len() == 0 {
        let bytes = shift_prefix(shifted, false);
        if shifted {
            assert(bytes[0] == SHIFT_OUT);
            assert(bytes.drop_first() =~= Seq::<u8>::empty());
            let next = decode_step(Some(m), st, bytes[0]).0;
            assert(state_after(Some(m), false, next, bytes.drop_first()) == next);
        } else {
            assert(bytes =~= Seq::<u8>::empty());
        }
    } else {
        assert(encodes_without_control(m, s.drop_first())) by {
            assert forall|i: int| 0 <= i < s.drop_first().len() implies (#[trigger] encode_char(
                m,
                s.drop_first()[i],
            ) matches Some(p) ==> !is_control(p.value)) by {
                assert(s.drop_first()[i] == s[i + 1]);
                assert(encode_char(m, s[i + 1]) matches Some(p) ==> !is_control(p.value));
            }
        }
        assert(encode_char(m, s[0]) matches Some(p) ==> !is_control(p.value));
        match encode_char(m, s[0]) {
            None => {
                lemma_encoding_resets_from(m, shifted, s.drop_first());
                assert(encode_from(m, shifted, s) == encode_from(m, shifted, s.drop_first()));
            },
            Some(p) => {
                let need = is_shifted_attribute(p.attributes);
                lemma_encoding_resets_from(m, need, s.drop_first());
                assert(encode_from(m, shifted, s) == shift_prefix(shifted, need) + seq![p.value]
                    + encode_from(m, need, s.drop_first()));
                let st2 = ConversionState { shifted: need, video: CharacterAttributes::Normal };
                let rest = encode_from(m, need, s.drop_first());
                let tail = seq![p.value] + rest;
                assert(tail[0] == p.value);
                assert(tail.drop_first() =~= rest);
                assert(control_transition(st2, p.value) is None);
                assert(state_after(Some(m), false, st2, tail) == state_after(
                    Some(m),
                    false,
                    st2,
                    rest,
                ));
                let bytes = shift_prefix(shifted, need) + tail;
                if need != shifted {
                    assert(bytes[0] == (if need { SHIFT_IN } else { SHIFT_OUT }));
                    assert(bytes.drop_first() =~= tail);
                    assert(control_transition(st, bytes[0]) == Some(st2));
                    assert(state_after(Some(m), false, st, bytes) == state_after(
                        Some(m),
                        false,
                        st2,
                        tail,
                    ));
                } else {
                    assert(bytes =~= tail);
                    assert(st == st2);
                }
                assert(shift_prefix(shifted, need) + seq![p.value] + rest =~= bytes);
            },
        }
    }
}

/// No stray shift state: when no character encodes to a control byte,
/// decoding an encoded text leaves the decoder unshifted and in normal
/// video, where it started
pub proof fn lemma_encoding_resets_state(m: TableSetModel, s: Seq<char>)
    requires
        encodes_without_control(m, s),
    ensures
        state_after(Some(m), false, initial_state(), encode(m, s)) == initial_state(),
{
    lemma_encoding_resets_from(m, false, s);
}

/// Concatenation: when no character of either text encodes to a control
/// byte, decoding two encoded texts one after the other gives the two
/// decodings one after the other
pub proof fn lemma_concatenated_encodings(m: TableSetModel, s1: Seq<char>, s2: Seq<char>)
    requires
        encodes_without_control(m, s1),
        encodes_without_control(m, s2),
    ensures
        decode(Some(m), false, encode(m, s1) + encode(m, s2)) == decode(Some(m), false, encode(m, s1))
            + decode(Some(m), false, encode(m, s2)),
        state_after(Some(m), false, initial_state(), encode(m, s1) + encode(m, s2))
            == initial_state(),
{
    lemma_encoding_resets_from(m, false, s1);
    lemma_encoding_resets_from(m, false, s2);
    lemma_decode_concat(Some(m), false, initial_state(), encode(m, s1), encode(m, s2));
}

/// Trailing shift-out: when the encoder is still shifted after the last
/// character, the output ends with a shift-out byte
pub proof fn lemma_trailing_shift_out(m: TableSetModel, shifted: bool, s: Seq<char>)
    requires
        encoder_shift_after(m, shifted, s),
    ensures
        encode_from(m, shifted, s).len() > 0,
        encode_from(m, shifted, s).last() == SHIFT_OUT,
    decreases s.len(),
{
    if s.len() > 0 {
        match encode_char(m, s[0]) {
            None => {
                lemma_trailing_shift_out(m, shifted, s.drop_first());
            },
            Some(p) => {
                let need = is_shifted_attribute(p.attributes);
                lemma_trailing_shift_out(m, need, s.drop_first());
                let rest = encode_from(m, need, s.drop_first());
                let bytes = shift_prefix(shifted, need) + seq![p.value] + rest;
                assert(bytes.last() == rest.last());
            },
        }
    }
}

/// Duplicate codes: a byte of 192-255 decodes as its canonical code
/// does, in any state, wherever the canonical code has an entry in the
/// PETSCII-to-screen map of the current shift state
pub proof fn lemma_duplicate_codes(m: TableSetModel, st: ConversionState, b: u8)
    requires
        b >= 192,
        m.petscii_to_screen(st.shifted).contains_key(normalize(b)),
    ensures
        decode_step(Some(m), st, b) == decode_step(Some(m), st, normalize(b)),
        st == initial_state() ==> decode(Some(m), false, seq![b]) == decode(
            Some(m),
            false,
            seq![normalize(b)],
        ),
{
    assert(normalize(normalize(b)) == normalize(b));
    assert(!is_control(normalize(b)));
    if st == initial_state() {
        assert(seq![b].drop_first() =~= Seq::<u8>::empty());
        assert(seq![normalize(b)].drop_first() =~= Seq::<u8>::empty());
        assert(decode_from(Some(m), false, st, seq![b].drop_first()) =~= Seq::<char>::empty());
        assert(decode_from(Some(m), false, st, seq![normalize(b)].drop_first())
            =~= Seq::<char>::empty());
    }
}

/// Decoding with stripping skips every shifted space of a sequence
proof fn lemma_strip_all_pads(cfg: Option<TableSetModel>, st: ConversionState, pads: Seq<u8>)
    requires
        forall|i: int| 0 <= i < pads.len() ==> pads[i] == SHIFTED_SPACE,
    ensures
        decode_from(cfg, true, st, pads) == Seq::<char>::empty(),
        state_after(cfg, true, st, pads) == st,
    decreases pads.len(),
{
    if pads.len() > 0 {
        lemma_strip_all_pads(cfg, st, pads.drop_first());
    }
}

/// Stripping makes no difference on bytes without a shifted space
proof fn lemma_strip_no_pads(cfg: Option<TableSetModel>, st: ConversionState, bytes: Seq<u8>)
    requires
        forall|i: int| 0 <= i < bytes.len() ==> bytes[i] != SHIFTED_SPACE,
    ensures
        decode_from(cfg, true, st, bytes) == decode_from(cfg, false, st, bytes),
    decreases bytes.len(),
{
    if bytes.len() > 0 {
        lemma_strip_no_pads(cfg, decode_step(cfg, st, bytes[0]).0, bytes.drop_first());
    }
}

/// Without stripping, each shifted space decodes to one character, the
/// same for all, and leaves the state as it was
proof fn lemma_keep_pads(cfg: Option<TableSetModel>, st: ConversionState, pads: Seq<u8>)
    requires
        forall|i: int| 0 <= i < pads.len() ==> pads[i] == SHIFTED_SPACE,
    ensures
        decode_from(cfg, false, st, pads) == Seq::new(
            pads.len(),
            |i: int| decode_step(cfg, st, SHIFTED_SPACE).1->0,
        ),
    decreases pads.len(),
{
    if pads.len() > 0 {
        assert(control_transition(st, SHIFTED_SPACE) is None);
        lemma_keep_pads(cfg, st, pads.drop_first());
        assert(decode_from(cfg, false, st, pads) =~= Seq::new(
            pads.len(),
            |i: int| decode_step(cfg, st, SHIFTED_SPACE).1->0,
        ));
    } else {
        assert(decode_from(cfg, false, st, pads) =~= Seq::new(
            pads.len(),
            |i: int| decode_step(cfg, st, SHIFTED_SPACE).1->0,
        ));
    }
}

/// Pad stripping: bytes without a shifted space, followed by shifted
/// spaces, decode with stripping as the bytes alone do; without
/// stripping, each trailing shifted space adds its mapped character
pub proof fn lemma_pad_stripping(cfg: Option<TableSetModel>, bytes: Seq<u8>, pads: Seq<u8>)
    requires
        forall|i: int| 0 <= i < bytes.len() ==> bytes[i] != SHIFTED_SPACE,
        forall|i: int| 0 <= i < pads.len() ==> pads[i] == SHIFTED_SPACE,
    ensures
        decode(cfg, true, bytes + pads) == decode(cfg, false, bytes),
        decode(cfg, false, bytes + pads) == decode(cfg, false, bytes) + Seq::new(
            pads.len(),
            |i: int|
                decode_step(
                    cfg,
                    state_after(cfg, false, initial_state(), bytes),
                    SHIFTED_SPACE,
                ).1->0,
        ),
{
    let st = initial_state();
    lemma_decode_concat(cfg, true, st, bytes, pads);
    lemma_strip_all_pads(cfg, state_after(cfg, true, st, bytes), pads);
    lemma_strip_no_pads(cfg, st, bytes);
    assert(decode_from(cfg, true, st, bytes) + Seq::<char>::empty() =~= decode_from(
        cfg,
        true,
        st,
        bytes,
    ));
    lemma_decode_concat(cfg, false, st, bytes, pads);
    lemma_keep_pads(cfg, state_after(cfg, false, st, bytes), pads);
}

/// Bytes without control bytes leave the state as it was
proof fn lemma_no_control_keeps_state(
    cfg: Option<TableSetModel>,
    st: ConversionState,
    bytes: Seq<u8>,
)
    requires
        forall|i: int| 0 <= i < bytes.len() ==> !is_control(#[trigger] bytes[i]),
    ensures
        state_after(cfg, false, st, bytes) == st,
    decreases bytes.len(),
{
    if bytes.len() > 0 {
        assert(!is_control(bytes[0]));
        assert forall|i: int| 0 <= i < bytes.drop_first().len() implies !is_control(
            #[trigger] bytes.drop_first()[i],
        ) by {
            assert(!is_control(bytes[i + 1]));
        }
        lemma_no_control_keeps_state(cfg, st, bytes.drop_first());
    }
}

/// Reverse video: bytes without control bytes, between reverse-on and
/// reverse-off, decode as they do in reversed video, and normal video
/// holds again afterwards
pub proof fn lemma_reversed_video(m: TableSetModel, shifted: bool, bytes: Seq<u8>)
    requires
        forall|i: int| 0 <= i < bytes.len() ==> !is_control(#[trigger] bytes[i]),
    ensures
        decode_from(
            Some(m),
            false,
            (ConversionState { shifted, video: CharacterAttributes::Normal }),
            (seq![REVERSE_ON] + bytes + seq![REVERSE_OFF]),
        ) == decode_from(
            Some(m),
            false,
            (ConversionState { shifted, video: CharacterAttributes::Reversed }),
            bytes,
        ),
        state_after(
            Some(m),
            false,
            (ConversionState { shifted, video: CharacterAttributes::Normal }),
            (seq![REVERSE_ON] + bytes + seq![REVERSE_OFF]),
        ) == (ConversionState { shifted, video: CharacterAttributes::Normal }),
{
    let normal = ConversionState { shifted, video: CharacterAttributes::Normal };
    let reversed = ConversionState { shifted, video: CharacterAttributes::Reversed };
    let head = seq![REVERSE_ON] + bytes;
    assert(head[0] == REVERSE_ON);
    assert(head.drop_first() =~= bytes);
    lemma_no_control_keeps_state(Some(m), reversed, bytes);
    lemma_decode_concat(Some(m), false, normal, head, seq![REVERSE_OFF]);
    assert(seq![REVERSE_OFF].drop_first() =~= Seq::<u8>::empty());
    assert(decode_from(Some(m), false, normal, seq![REVERSE_OFF].drop_first())
        =~= Seq::<char>::empty());
    assert(decode_from(Some(m), false, reversed, seq![REVERSE_OFF]) =~= Seq::<char>::empty());
    assert(decode_from(Some(m), false, reversed, bytes) + Seq::<char>::empty() =~= decode_from(
        Some(m),
        false,
        reversed,
        bytes,
    ));
    assert(state_after(Some(m), false, normal, seq![REVERSE_OFF].drop_first()) == normal);
}

/// The PETSCII codes of a text's characters, one per character
pub open spec fn encoded_values(m: TableSetModel, s: Seq<char>) -> Seq<u8> {
    s.map_values(|c: char| encode_char(m, c)->0.value)
}

/// Whether every character of a text encodes to a code of the given
/// shift state
pub open spec fn all_encode_in(m: TableSetModel, s: Seq<char>, shifted: bool) -> bool {
    forall|i: int|
        0 <= i < s.len() ==> (#[trigger] encode_char(m, s[i]) matches Some(p)
            && is_shifted_attribute(p.attributes) == shifted)
}

proof fn lemma_encoding_in_one_state(m: TableSetModel, s: Seq<char>, shifted: bool)
    requires
        all_encode_in(m, s, shifted),
    ensures
        encode_from(m, shifted, s) == encoded_values(m, s) + shift_prefix(shifted, false),
    decreases s.len(),
{
    if s.len() == 0 {
        assert(encoded_values(m, s) =~= Seq::<u8>::empty());
        assert(Seq::<u8>::empty() + shift_prefix(shifted, false) =~= shift_prefix(shifted, false));
    } else {
        assert(encode_char(m, s[0]) matches Some(p) && is_shifted_attribute(p.attributes)
            == shifted);
        assert(all_encode_in(m, s.drop_first(), shifted)) by {
            assert forall|i: int| 0 <= i < s.drop_first().len() implies (#[trigger] encode_char(
                m,
                s.drop_first()[i],
            ) matches Some(p) && is_shifted_attribute(p.attributes) == shifted) by {
                assert(s.drop_first()[i] == s[i + 1]);
                assert(encode_char(m, s[i + 1]) matches Some(p) && is_shifted_attribute(
                    p.attributes,
                ) == shifted);
            }
        }
        lemma_encoding_in_one_state(m, s.drop_first(), shifted);
        let v = encode_char(m, s[0])->0.value;
        assert(shift_prefix(shifted, shifted) =~= Seq::<u8>::empty());
        assert(encoded_values(m, s) =~= seq![v] + encoded_values(m, s.drop_first()));
        assert(Seq::<u8>::empty() + seq![v] + (encoded_values(m, s.drop_first()) + shift_prefix(
            shifted,
            false,
        )) =~= encoded_values(m, s) + shift_prefix(shifted, false));
    }
}

/// Unshifted text: when every character encodes to a code of the
/// unshifted set, the encoding is just those codes, with no shift byte
pub proof fn lemma_unshifted_encoding(m: TableSetModel, s: Seq<char>)
    requires
        all_encode_in(m, s, false),
    ensures
        encode(m, s) == encoded_values(m, s),
{
    lemma_encoding_in_one_state(m, s, false);
    assert(encoded_values(m, s) + Seq::<u8>::empty() =~= encoded_values(m, s));
}

/// Shift bracketing: when every character of a non-empty text encodes to
/// a code of the shifted set, the encoding is a shift-in, those codes,
/// and a shift-out
pub proof fn lemma_shifted_encoding(m: TableSetModel, s: Seq<char>)
    requires
        s.len() > 0,
        all_encode_in(m, s, true),
    ensures
        encode(m, s) == seq![SHIFT_IN] + encoded_values(m, s) + seq![SHIFT_OUT],
{
    assert(encode_char(m, s[0]) matches Some(p) && is_shifted_attribute(p.attributes));
    let p = encode_char(m, s[0])->0;
    assert(all_encode_in(m, s.drop_first(), true)) by {
        assert forall|i: int| 0 <= i < s.drop_first().len() implies (#[trigger] encode_char(
            m,
            s.drop_first()[i],
        ) matches Some(q) && is_shifted_attribute(q.attributes) == true) by {
            assert(s.drop_first()[i] == s[i + 1]);
            assert(encode_char(m, s[i + 1]) matches Some(q) && is_shifted_attribute(q.attributes)
                == true);
        }
    }
    lemma_encoding_in_one_state(m, s.drop_first(), true);
    assert(encoded_values(m, s) =~= seq![p.value] + encoded_values(m, s.drop_first()));
    assert(seq![SHIFT_IN] + seq![p.value] + (encoded_values(m, s.drop_first()) + seq![SHIFT_OUT])
        =~= seq![SHIFT_IN] + encoded_values(m, s) + seq![SHIFT_OUT]);
}

} // verus!
