//! PETSCII string library
//!
//! PETSCII is the character set of Commodore's 8-bit computers.  It is
//! based on the 1963 version of ASCII and adds block graphics,
//! geometric shapes and playing card suits.  There is an "unshifted"
//! set (uppercase and graphics) and a "shifted" set (lowercase and
//! uppercase).
//!
//! Besides the PETSCII codes the Commodore keeps an in-memory screen
//! display code, again in two sets, plus a virtual third set used here
//! for control characters such as line feed and carriage return.
//! Converting between PETSCII and Unicode therefore goes through
//! several tables: PETSCII code to screen code, then screen code to
//! Unicode, and the reverse for encoding.
use std::collections::HashMap;
use vstd::prelude::*;
use vstd::std_specs::hash::group_hash_axioms;

use crate::convert::{decode, petscii_to_unicode, unicode_to_petscii_bytes, encode};
use crate::error::{Error, ErrorKind};
use crate::SystemConfig;

verus! {

broadcast use group_hash_axioms;

/// A Commodore screen code value and the screen set it is in
#[derive(Clone, Copy, Debug, PartialEq, Eq, Structural)]
pub struct ScreenCodeValue {
    /// The screen set this code is in
    pub set: u8,
    /// The screen code value
    pub value: u8,
}

/// Commodore 64 character attributes of a PETSCII code
#[derive(Clone, Copy, Debug, PartialEq, Eq, Structural)]
pub enum PetsciiCharacterAttributes {
    /// A shifted character
    Shifted,
}

impl PetsciiCharacterAttributes {
    /// The bit this attribute occupies in an attribute byte
    pub open spec fn spec_bit(self) -> u8 {
        match self {
            PetsciiCharacterAttributes::Shifted => 1,
        }
    }

    /// The bit this attribute occupies in an attribute byte
    pub fn bit(self) -> (b: u8)
        ensures
            b == self.spec_bit(),
    {
        match self {
            PetsciiCharacterAttributes::Shifted => 1,
        }
    }
}

/// The PETSCII code along with its attributes, such as whether it
/// belongs to the shifted character set
#[derive(Clone, Copy, Debug, PartialEq, Eq, Structural)]
pub struct PetsciiCodeValue {
    /// Whether the value is shifted, and other attributes, as bits
    pub attributes: u8,
    /// The PETSCII code value
    pub value: u8,
}

/// Whether an attribute byte has the shifted bit set
pub open spec fn is_shifted_attribute(attributes: u8) -> bool {
    attributes & 1 == 1
}

impl PetsciiCodeValue {
    /// Whether this code belongs to the shifted character set
    pub fn is_shifted(&self) -> (r: bool)
        ensures
            r == is_shifted_attribute(self.attributes),
    {
        self.attributes & PetsciiCharacterAttributes::Shifted.bit() == 1
    }
}

/// Video attribute of a character: normal or reversed
#[derive(Clone, Copy, Debug, PartialEq, Eq, Structural)]
pub enum CharacterAttributes {
    /// A normal character
    Normal,
    /// A reversed-video character
    Reversed,
}

/// A PETSCII character with its video attribute and PETSCII code
#[derive(Clone, Copy, Debug, PartialEq, Eq, Structural)]
pub struct PetsciiCharacter {
    /// The attributes of this character
    pub attributes: CharacterAttributes,
    /// The character PETSCII code
    pub character: u8,
}

/// Whether a PETSCII-to-screen entry is usable: its screen set is 1, 2
/// or 3 and its screen code leaves room for the reverse-video offset
pub open spec fn valid_screen_entry(v: ScreenCodeValue) -> bool {
    1 <= v.set <= 3 && v.value <= 127
}

/// Whether every entry of a PETSCII-to-screen map is usable
pub open spec fn valid_screen_map(m: Map<u8, ScreenCodeValue>) -> bool {
    forall|k: u8| #[trigger] m.contains_key(k) ==> valid_screen_entry(m[k])
}

/// The character maps of the PETSCII converter: nine mappings between
/// PETSCII codes, screen codes and Unicode scalar values, plus a
/// version tag
///
/// Every mapping is a function; a missing key means "no mapping".  The
/// PETSCII-to-screen maps only hold entries whose screen set is 1, 2 or
/// 3 and whose screen code is at most 127: a table that breaks this is
/// refused when the entry is inserted.
#[derive(Debug)]
pub struct PetsciiConfig {
    version: String,
    c64_petscii_shifted_codes_to_screen_codes: HashMap<u8, ScreenCodeValue>,
    c64_petscii_unshifted_codes_to_screen_codes: HashMap<u8, ScreenCodeValue>,
    c64_screen_codes_set_1_to_unicode_codes: HashMap<u8, char>,
    c64_screen_codes_set_2_to_unicode_codes: HashMap<u8, char>,
    c64_screen_codes_set_3_to_unicode_codes: HashMap<u8, char>,
    unicode_codes_to_c64_screen_codes: HashMap<u32, ScreenCodeValue>,
    c64_screen_codes_set_1_to_petscii_codes: HashMap<u8, PetsciiCodeValue>,
    c64_screen_codes_set_2_to_petscii_codes: HashMap<u8, PetsciiCodeValue>,
    c64_screen_codes_set_3_to_petscii_codes: HashMap<u8, PetsciiCodeValue>,
}

/// What a table set holds, as mathematical maps
///
/// The screen-set-indexed maps are keyed by `(screen set, screen code)`.
pub struct TableSetModel {
    /// The version tag
    pub version: Seq<char>,
    /// Unshifted PETSCII code to screen code
    pub petscii_unshifted_to_screen: Map<u8, ScreenCodeValue>,
    /// Shifted PETSCII code to screen code
    pub petscii_shifted_to_screen: Map<u8, ScreenCodeValue>,
    /// `(screen set, screen code)` to Unicode scalar value
    pub screen_to_unicode: Map<(u8, u8), char>,
    /// Unicode scalar value to screen code
    pub unicode_to_screen: Map<u32, ScreenCodeValue>,
    /// `(screen set, screen code)` to PETSCII code
    pub screen_to_petscii: Map<(u8, u8), PetsciiCodeValue>,
}

/// The value a map holds for a key, if any
pub open spec fn lookup<K, V>(m: Map<K, V>, k: K) -> Option<V> {
    if m.contains_key(k) {
        Some(m[k])
    } else {
        None
    }
}

impl TableSetModel {
    /// The PETSCII-to-screen map of the shifted or the unshifted set
    pub open spec fn petscii_to_screen(self, shifted: bool) -> Map<u8, ScreenCodeValue> {
        if shifted {
            self.petscii_shifted_to_screen
        } else {
            self.petscii_unshifted_to_screen
        }
    }

    /// This model with one PETSCII-to-screen entry set
    pub open spec fn with_petscii_to_screen(
        self,
        shifted: bool,
        code: u8,
        screen: ScreenCodeValue,
    ) -> TableSetModel {
        if shifted {
            TableSetModel {
                petscii_shifted_to_screen: self.petscii_shifted_to_screen.insert(code, screen),
                ..self
            }
        } else {
            TableSetModel {
                petscii_unshifted_to_screen: self.petscii_unshifted_to_screen.insert(code, screen),
                ..self
            }
        }
    }
}

impl TableSetModel {
    /// This model with one screen-to-Unicode entry set
    pub open spec fn with_screen_to_unicode(self, set: u8, code: u8, c: char) -> TableSetModel {
        TableSetModel { screen_to_unicode: self.screen_to_unicode.insert((set, code), c), ..self }
    }

    /// This model with one Unicode-to-screen entry set
    pub open spec fn with_unicode_to_screen(self, c: char, screen: ScreenCodeValue) -> TableSetModel {
        TableSetModel { unicode_to_screen: self.unicode_to_screen.insert(c as u32, screen), ..self }
    }

    /// This model with one screen-to-PETSCII entry set
    pub open spec fn with_screen_to_petscii(
        self,
        set: u8,
        code: u8,
        petscii: PetsciiCodeValue,
    ) -> TableSetModel {
        TableSetModel {
            screen_to_petscii: self.screen_to_petscii.insert((set, code), petscii),
            ..self
        }
    }
}

/// Whether a screen set is one of the three that have tables
pub open spec fn is_screen_set(set: u8) -> bool {
    1 <= set <= 3
}

/// The error that a PETSCII-to-screen entry is refused with
pub open spec fn screen_entry_error(screen: ScreenCodeValue) -> ErrorKind {
    if !is_screen_set(screen.set) {
        ErrorKind::InvalidScreenSet { set: screen.set }
    } else {
        ErrorKind::ScreenCodeOutOfRange { value: screen.value }
    }
}

/// Three per-set maps, from screen code to value, as one map keyed by
/// `(screen set, screen code)`
pub open spec fn by_set<V>(m1: Map<u8, V>, m2: Map<u8, V>, m3: Map<u8, V>) -> Map<
    (u8, u8),
    V,
> {
    Map::new(
        |k: (u8, u8)|
            (k.0 == 1 && m1.contains_key(k.1)) || (k.0 == 2 && m2.contains_key(k.1)) || (k.0 == 3
                && m3.contains_key(k.1)),
        |k: (u8, u8)|
            if k.0 == 1 {
                m1[k.1]
            } else if k.0 == 2 {
                m2[k.1]
            } else {
                m3[k.1]
            },
    )
}

impl View for PetsciiConfig {
    type V = TableSetModel;

    closed spec fn view(&self) -> TableSetModel {
        TableSetModel {
            version: self.version@,
            petscii_unshifted_to_screen: self.c64_petscii_unshifted_codes_to_screen_codes@,
            petscii_shifted_to_screen: self.c64_petscii_shifted_codes_to_screen_codes@,
            screen_to_unicode: by_set(
                self.c64_screen_codes_set_1_to_unicode_codes@,
                self.c64_screen_codes_set_2_to_unicode_codes@,
                self.c64_screen_codes_set_3_to_unicode_codes@,
            ),
            unicode_to_screen: self.unicode_codes_to_c64_screen_codes@,
            screen_to_petscii: by_set(
                self.c64_screen_codes_set_1_to_petscii_codes@,
                self.c64_screen_codes_set_2_to_petscii_codes@,
                self.c64_screen_codes_set_3_to_petscii_codes@,
            ),
        }
    }
}

impl PetsciiConfig {
    #[verifier::type_invariant]
    spec fn well_formed(self) -> bool {
        &&& valid_screen_map(self.c64_petscii_shifted_codes_to_screen_codes@)
        &&& valid_screen_map(self.c64_petscii_unshifted_codes_to_screen_codes@)
    }

    /// A table set with the given version and no mappings
    pub fn new(version: String) -> (c: PetsciiConfig)
        ensures
            c@ == (TableSetModel {
                version: version@,
                petscii_unshifted_to_screen: Map::empty(),
                petscii_shifted_to_screen: Map::empty(),
                screen_to_unicode: Map::empty(),
                unicode_to_screen: Map::empty(),
                screen_to_petscii: Map::empty(),
            }),
    {
        let c = PetsciiConfig {
            version,
            c64_petscii_shifted_codes_to_screen_codes: HashMap::new(),
            c64_petscii_unshifted_codes_to_screen_codes: HashMap::new(),
            c64_screen_codes_set_1_to_unicode_codes: HashMap::new(),
            c64_screen_codes_set_2_to_unicode_codes: HashMap::new(),
            c64_screen_codes_set_3_to_unicode_codes: HashMap::new(),
            unicode_codes_to_c64_screen_codes: HashMap::new(),
            c64_screen_codes_set_1_to_petscii_codes: HashMap::new(),
            c64_screen_codes_set_2_to_petscii_codes: HashMap::new(),
            c64_screen_codes_set_3_to_petscii_codes: HashMap::new(),
        };
        assert(c@.screen_to_unicode =~= Map::empty());
        assert(c@.screen_to_petscii =~= Map::empty());
        c
    }

    /// The version tag
    pub fn version(&self) -> (v: &String)
        ensures
            v@ == self@.version,
    {
        &self.version
    }

    /// Map a PETSCII code of the shifted or unshifted set to a screen
    /// code.  The entry is refused, and the tables left as they were,
    /// unless its screen set is 1, 2 or 3 and its screen code at most 127.
    pub fn insert_petscii_to_screen(&mut self, shifted: bool, code: u8, screen: ScreenCodeValue) -> (r:
        Result<(), Error>)
        ensures
            r is Ok <==> valid_screen_entry(screen),
            r is Ok ==> final(self)@ == old(self)@.with_petscii_to_screen(shifted, code, screen),
            r matches Err(e) ==> e.spec_kind() == screen_entry_error(screen) && final(self)@ == old(
                self,
            )@,
    {
        if screen.set < 1 || screen.set > 3 {
            return Err(Error::new(ErrorKind::InvalidScreenSet { set: screen.set }));
        }
        if screen.value > 127 {
            return Err(Error::new(ErrorKind::ScreenCodeOutOfRange { value: screen.value }));
        }
        proof {
            use_type_invariant(&*self);
        }
        // The maps are updated out of place, so that the table set stays
        // well formed at every step.
        let mut m: HashMap<u8, ScreenCodeValue> = HashMap::new();
        if shifted {
            std::mem::swap(&mut self.c64_petscii_shifted_codes_to_screen_codes, &mut m);
            m.insert(code, screen);
            assert(valid_screen_map(m@));
            std::mem::swap(&mut self.c64_petscii_shifted_codes_to_screen_codes, &mut m);
        } else {
            std::mem::swap(&mut self.c64_petscii_unshifted_codes_to_screen_codes, &mut m);
            m.insert(code, screen);
            assert(valid_screen_map(m@));
            std::mem::swap(&mut self.c64_petscii_unshifted_codes_to_screen_codes, &mut m);
        }
        proof {
            assert(self@.petscii_unshifted_to_screen =~= old(self)@.with_petscii_to_screen(shifted, code, screen).petscii_unshifted_to_screen);
        }
        Ok(())
    }

    /// The screen code a PETSCII code of the shifted or unshifted set
    /// maps to
    pub fn get_petscii_to_screen(&self, shifted: bool, code: u8) -> (r: Option<ScreenCodeValue>)
        ensures
            r == lookup(self@.petscii_to_screen(shifted), code),
            r matches Some(v) ==> valid_screen_entry(v),
    {
        proof {
            use_type_invariant(self);
        }
        let m = if shifted {
            &self.c64_petscii_shifted_codes_to_screen_codes
        } else {
            &self.c64_petscii_unshifted_codes_to_screen_codes
        };
        match m.get(&code) {
            Some(v) => Some(*v),
            None => None,
        }
    }

    /// Map a screen code of a screen set to a Unicode scalar value.  The
    /// entry is refused, and the tables left as they were, unless the
    /// screen set is 1, 2 or 3.
    pub fn insert_screen_to_unicode(&mut self, set: u8, code: u8, c: char) -> (r: Result<
        (),
        Error,
    >)
        ensures
            r is Ok <==> is_screen_set(set),
            r is Ok ==> final(self)@ == old(self)@.with_screen_to_unicode(set, code, c),
            r matches Err(e) ==> e.spec_kind() == (ErrorKind::InvalidScreenSet { set })
                && final(self)@ == old(self)@,
    {
        proof {
            use_type_invariant(&*self);
        }
        let mut m: HashMap<u8, char> = HashMap::new();
        if set == 1 {
            std::mem::swap(&mut self.c64_screen_codes_set_1_to_unicode_codes, &mut m);
            m.insert(code, c);
            std::mem::swap(&mut self.c64_screen_codes_set_1_to_unicode_codes, &mut m);
        } else if set == 2 {
            std::mem::swap(&mut self.c64_screen_codes_set_2_to_unicode_codes, &mut m);
            m.insert(code, c);
            std::mem::swap(&mut self.c64_screen_codes_set_2_to_unicode_codes, &mut m);
        } else if set == 3 {
            std::mem::swap(&mut self.c64_screen_codes_set_3_to_unicode_codes, &mut m);
            m.insert(code, c);
            std::mem::swap(&mut self.c64_screen_codes_set_3_to_unicode_codes, &mut m);
        } else {
            return Err(Error::new(ErrorKind::InvalidScreenSet { set }));
        }
        proof {
            assert(self@.screen_to_unicode =~= old(self)@.screen_to_unicode.insert((set, code), c));
        }
        Ok(())
    }

    /// The Unicode scalar value a screen code of a screen set maps to
    pub fn get_screen_to_unicode(&self, set: u8, code: u8) -> (r: Option<char>)
        ensures
            r == lookup(self@.screen_to_unicode, (set, code)),
    {
        let m = if set == 1 {
            &self.c64_screen_codes_set_1_to_unicode_codes
        } else if set == 2 {
            &self.c64_screen_codes_set_2_to_unicode_codes
        } else if set == 3 {
            &self.c64_screen_codes_set_3_to_unicode_codes
        } else {
            return None;
        };
        match m.get(&code) {
            Some(c) => Some(*c),
            None => None,
        }
    }

    /// Map a Unicode scalar value to a screen code
    pub fn insert_unicode_to_screen(&mut self, c: char, screen: ScreenCodeValue)
        ensures
            final(self)@ == old(self)@.with_unicode_to_screen(c, screen),
    {
        proof {
            use_type_invariant(&*self);
        }
        let mut m: HashMap<u32, ScreenCodeValue> = HashMap::new();
        std::mem::swap(&mut self.unicode_codes_to_c64_screen_codes, &mut m);
        m.insert(c as u32, screen);
        std::mem::swap(&mut self.unicode_codes_to_c64_screen_codes, &mut m);
    }

    /// The screen code a Unicode scalar value maps to
    pub fn get_unicode_to_screen(&self, c: char) -> (r: Option<ScreenCodeValue>)
        ensures
            r == lookup(self@.unicode_to_screen, c as u32),
    {
        match self.unicode_codes_to_c64_screen_codes.get(&(c as u32)) {
            Some(v) => Some(*v),
            None => None,
        }
    }

    /// Map a screen code of a screen set to a PETSCII code.  The entry is
    /// refused, and the tables left as they were, unless the screen set
    /// is 1, 2 or 3.
    pub fn insert_screen_to_petscii(&mut self, set: u8, code: u8, petscii: PetsciiCodeValue) -> (r:
        Result<(), Error>)
        ensures
            r is Ok <==> is_screen_set(set),
            r is Ok ==> final(self)@ == old(self)@.with_screen_to_petscii(set, code, petscii),
            r matches Err(e) ==> e.spec_kind() == (ErrorKind::InvalidScreenSet { set })
                && final(self)@ == old(self)@,
    {
        proof {
            use_type_invariant(&*self);
        }
        let mut m: HashMap<u8, PetsciiCodeValue> = HashMap::new();
        if set == 1 {
            std::mem::swap(&mut self.c64_screen_codes_set_1_to_petscii_codes, &mut m);
            m.insert(code, petscii);
            std::mem::swap(&mut self.c64_screen_codes_set_1_to_petscii_codes, &mut m);
        } else if set == 2 {
            std::mem::swap(&mut self.c64_screen_codes_set_2_to_petscii_codes, &mut m);
            m.insert(code, petscii);
            std::mem::swap(&mut self.c64_screen_codes_set_2_to_petscii_codes, &mut m);
        } else if set == 3 {
            std::mem::swap(&mut self.c64_screen_codes_set_3_to_petscii_codes, &mut m);
            m.insert(code, petscii);
            std::mem::swap(&mut self.c64_screen_codes_set_3_to_petscii_codes, &mut m);
        } else {
            return Err(Error::new(ErrorKind::InvalidScreenSet { set }));
        }
        proof {
            assert(self@.screen_to_petscii =~= old(self)@.screen_to_petscii.insert(
                (set, code),
                petscii,
            ));
        }
        Ok(())
    }

    /// The PETSCII code a screen code of a screen set maps to
    pub fn get_screen_to_petscii(&self, set: u8, code: u8) -> (r: Option<PetsciiCodeValue>)
        ensures
            r == lookup(self@.screen_to_petscii, (set, code)),
    {
        let m = if set == 1 {
            &self.c64_screen_codes_set_1_to_petscii_codes
        } else if set == 2 {
            &self.c64_screen_codes_set_2_to_petscii_codes
        } else if set == 3 {
            &self.c64_screen_codes_set_3_to_petscii_codes
        } else {
            return None;
        };
        match m.get(&code) {
            Some(p) => Some(*p),
            None => None,
        }
    }
}

impl Clone for PetsciiConfig {
    fn clone(&self) -> (c: Self)
        ensures
            c@ == self@,
    {
        proof {
            use_type_invariant(self);
        }
        PetsciiConfig {
            version: self.version.clone(),
            c64_petscii_shifted_codes_to_screen_codes: self.c64_petscii_shifted_codes_to_screen_codes.clone(),
            c64_petscii_unshifted_codes_to_screen_codes: self.c64_petscii_unshifted_codes_to_screen_codes.clone(),
            c64_screen_codes_set_1_to_unicode_codes: self.c64_screen_codes_set_1_to_unicode_codes.clone(),
            c64_screen_codes_set_2_to_unicode_codes: self.c64_screen_codes_set_2_to_unicode_codes.clone(),
            c64_screen_codes_set_3_to_unicode_codes: self.c64_screen_codes_set_3_to_unicode_codes.clone(),
            unicode_codes_to_c64_screen_codes: self.unicode_codes_to_c64_screen_codes.clone(),
            c64_screen_codes_set_1_to_petscii_codes: self.c64_screen_codes_set_1_to_petscii_codes.clone(),
            c64_screen_codes_set_2_to_petscii_codes: self.c64_screen_codes_set_2_to_petscii_codes.clone(),
            c64_screen_codes_set_3_to_petscii_codes: self.c64_screen_codes_set_3_to_petscii_codes.clone(),
        }
    }
}

/// A fixed-capacity PETSCII string
///
/// `data` holds `L` bytes, of which the first `len` are the string; the
/// rest is zero filled and not part of it.  The string may carry the
/// character map used to decode it, and may ask that shifted spaces,
/// which CBM DOS uses to pad file and disk names, be left out.
#[derive(Clone, Copy)]
pub struct PetsciiString<'a, const L: usize> {
    /// The length of the string
    pub len: u32,
    /// The string data
    pub data: [u8; L],
    /// The character map for this string
    pub character_map: Option<&'a SystemConfig>,
    /// Leave shifted spaces (0xA0) out when decoding this string
    pub strip_shifted_space: bool,
}

/// `s` followed by zeros up to `n` bytes
pub open spec fn zero_padded(s: Seq<u8>, n: nat) -> Seq<u8> {
    Seq::new(n, |i: int| if i < s.len() { s[i] } else { 0u8 })
}

/// Whether a string of `len` bytes fits a capacity of `capacity`: the
/// length field is a `u32`, so no more than `u32::MAX` bytes fit in any
/// case
pub open spec fn fits(len: nat, capacity: nat) -> bool {
    len <= capacity && len <= u32::MAX
}

/// The error for a source of `len` bytes that does not fit `capacity`
pub open spec fn oversize_error(len: nat, capacity: nat) -> ErrorKind {
    ErrorKind::Oversize { len: len as usize, capacity: capacity as usize }
}

impl<'a, const L: usize> PetsciiString<'a, L> {
    /// The number of bytes of `data` that belong to the string: `len`,
    /// but never more than the capacity
    pub open spec fn content_len(&self) -> nat {
        if self.len as nat <= L as nat {
            self.len as nat
        } else {
            L as nat
        }
    }

    /// The bytes of the string
    pub open spec fn content(&self) -> Seq<u8> {
        self.data@.subrange(0, self.content_len() as int)
    }

    /// The model of the character map the string carries, if any
    pub open spec fn table_model(&self) -> Option<TableSetModel> {
        match self.character_map {
            Some(sc) => Some(sc.character_set_map@),
            None => None,
        }
    }

    /// The Unicode text the string decodes to
    pub open spec fn decoded(&self) -> Seq<char> {
        decode(self.table_model(), self.strip_shifted_space, self.content())
    }

    /// Create a new PETSCII string without a character map
    pub fn new(len: u32, data: [u8; L]) -> (ps: Self)
        ensures
            ps.len == len,
            ps.data == data,
            ps.character_map.is_none(),
            !ps.strip_shifted_space,
    {
        PetsciiString { len, data, character_map: None, strip_shifted_space: false }
    }

    /// Create a new PETSCII string with a given character map
    pub fn new_with_config(len: u32, data: [u8; L], character_map: &'a SystemConfig) -> (ps: Self)
        ensures
            ps.len == len,
            ps.data == data,
            ps.character_map == Some(character_map),
            !ps.strip_shifted_space,
    {
        PetsciiString { len, data, character_map: Some(character_map), strip_shifted_space: false }
    }

    /// The length of the string
    pub fn len(&self) -> (n: usize)
        ensures
            n == self.len,
    {
        self.len as usize
    }

    /// Whether the string is empty
    pub fn is_empty(&self) -> (b: bool)
        ensures
            b <==> self.len == 0,
    {
        self.len == 0
    }

    /// The first `s.len()` bytes of `L`, copied from `s`, the rest zero
    fn fill(s: &[u8]) -> (data: [u8; L])
        requires
            s@.len() <= L,
        ensures
            data@ == zero_padded(s@, L as nat),
    {
        let mut data: [u8; L] = [0u8; L];
        let n = s.len();
        let mut i: usize = 0;
        while i < n
            invariant
                n == s@.len(),
                n <= L,
                i <= n,
                data@.len() == L,
                forall|j: int| 0 <= j < i ==> data@[j] == s@[j],
                forall|j: int| i <= j < L ==> data@[j] == 0u8,
            decreases n - i,
        {
            data[i] = s[i];
            i = i + 1;
        }
        assert(data@ =~= zero_padded(s@, L as nat));
        data
    }

    /// Build a string from bytes, or report that they do not fit
    fn from_parts(
        s: &[u8],
        character_map: Option<&'a SystemConfig>,
        strip_shifted_space: bool,
    ) -> (r: Result<Self, Error>)
        ensures
            r is Ok <==> fits(s@.len(), L as nat),
            r matches Ok(ps) ==> {
                &&& ps.len as nat == s@.len()
                &&& ps.data@ == zero_padded(s@, L as nat)
                &&& ps.character_map == character_map
                &&& ps.strip_shifted_space == strip_shifted_space
            },
            r matches Err(e) ==> e.spec_kind() == oversize_error(s@.len(), L as nat),
    {
        if s.len() > L || s.len() > u32::MAX as usize {
            return Err(Error::new(ErrorKind::Oversize { len: s.len(), capacity: L }));
        }
        let data = Self::fill(s);
        Ok(PetsciiString { len: s.len() as u32, data, character_map, strip_shifted_space })
    }

    /// Create a string from a byte slice; it is an error for the slice to
    /// be longer than the capacity
    pub fn from_byte_slice(s: &[u8]) -> (r: Result<Self, Error>)
        ensures
            r is Ok <==> fits(s@.len(), L as nat),
            r matches Ok(ps) ==> {
                &&& ps.len as nat == s@.len()
                &&& ps.data@ == zero_padded(s@, L as nat)
                &&& ps.character_map.is_none()
                &&& !ps.strip_shifted_space
            },
            r matches Err(e) ==> e.spec_kind() == oversize_error(s@.len(), L as nat),
    {
        Self::from_parts(s, None, false)
    }

    /// Create a string from a byte slice that leaves shifted spaces
    /// (0xA0) out when decoded; it is an error for the slice to be
    /// longer than the capacity
    pub fn from_byte_slice_strip_shifted_space(s: &[u8]) -> (r: Result<Self, Error>)
        ensures
            r is Ok <==> fits(s@.len(), L as nat),
            r matches Ok(ps) ==> {
                &&& ps.len as nat == s@.len()
                &&& ps.data@ == zero_padded(s@, L as nat)
                &&& ps.character_map.is_none()
                &&& ps.strip_shifted_space
            },
            r matches Err(e) ==> e.spec_kind() == oversize_error(s@.len(), L as nat),
    {
        Self::from_parts(s, None, true)
    }

    /// Create a string with a character map from a byte slice that leaves
    /// shifted spaces (0xA0) out when decoded; it is an error for the
    /// slice to be longer than the capacity
    pub fn from_byte_slice_strip_shifted_space_with_config(
        s: &[u8],
        character_map: &'a SystemConfig,
    ) -> (r: Result<Self, Error>)
        ensures
            r is Ok <==> fits(s@.len(), L as nat),
            r matches Ok(ps) ==> {
                &&& ps.len as nat == s@.len()
                &&& ps.data@ == zero_padded(s@, L as nat)
                &&& ps.character_map == Some(character_map)
                &&& ps.strip_shifted_space
            },
            r matches Err(e) ==> e.spec_kind() == oversize_error(s@.len(), L as nat),
    {
        Self::from_parts(s, Some(character_map), true)
    }

    /// Create a string by encoding Unicode text with a character map; it
    /// is an error for the encoding to be longer than the capacity
    pub fn from_str_with_config(s: &str, character_map: &'a SystemConfig) -> (r: Result<Self, Error>)
        ensures
            r is Ok <==> fits(encode(character_map.character_set_map@, s@).len(), L as nat),
            r matches Ok(ps) ==> {
                let bytes = encode(character_map.character_set_map@, s@);
                &&& ps.len as nat == bytes.len()
                &&& ps.data@ == zero_padded(bytes, L as nat)
                &&& ps.character_map == Some(character_map)
                &&& !ps.strip_shifted_space
            },
            r matches Err(e) ==> e.spec_kind() == oversize_error(
                encode(character_map.character_set_map@, s@).len(),
                L as nat,
            ),
    {
        let bytes = unicode_to_petscii_bytes(s, &character_map.character_set_map);
        Self::from_parts(bytes.as_slice(), Some(character_map), false)
    }

    /// Decode the string into Unicode text, with its own character map
    /// and shifted-space setting
    pub fn to_unicode_string(&self) -> (r: String)
        ensures
            r@ == self.decoded(),
    {
        let n: usize = if self.len as usize <= L {
            self.len as usize
        } else {
            L
        };
        let cm = match self.character_map {
            Some(sc) => Some(&sc.character_set_map),
            None => None,
        };
        petscii_to_unicode(&self.data[0..n], self.strip_shifted_space, cm)
    }
}

impl<'a, const L: usize> From<PetsciiString<'a, L>> for String {
    /// Decode a PETSCII string into Unicode text; the result is that of
    /// `to_unicode_string`
    fn from(s: PetsciiString<'a, L>) -> (r: String)
        ensures
            r@ == s.decoded(),
    {
        s.to_unicode_string()
    }
}

impl<'a, const L: usize> vstd::std_specs::convert::FromSpecImpl<PetsciiString<'a, L>> for String {
    open spec fn obeys_from_spec() -> bool {
        false
    }

    open spec fn from_spec(v: PetsciiString<'a, L>) -> String {
        arbitrary()
    }
}

impl<'a, 'b, const L: usize> From<&'b PetsciiString<'a, L>> for String {
    /// Decode a PETSCII string into Unicode text; the result is that of
    /// `to_unicode_string`
    fn from(s: &'b PetsciiString<'a, L>) -> (r: String)
        ensures
            r@ == s.decoded(),
    {
        s.to_unicode_string()
    }
}

impl<'a, 'b, const L: usize> vstd::std_specs::convert::FromSpecImpl<&'b PetsciiString<'a, L>> for String {
    open spec fn obeys_from_spec() -> bool {
        false
    }

    open spec fn from_spec(v: &'b PetsciiString<'a, L>) -> String {
        arbitrary()
    }
}

/// A walk over the bytes of a PETSCII string, in order
pub struct IntoIter<'a, const L: usize> {
    index: usize,
    data: PetsciiString<'a, L>,
}

impl<'a, const L: usize> IntoIter<'a, L> {
    #[verifier::type_invariant]
    spec fn within(self) -> bool {
        self.index <= self.data.content_len()
    }

    /// The bytes the walk goes over
    pub closed spec fn items(&self) -> Seq<u8> {
        self.data.content()
    }

    /// How many bytes the walk has handed out
    pub closed spec fn position(&self) -> nat {
        self.index as nat
    }

    /// How many bytes are left to hand out; a walk never goes past the
    /// end of its bytes
    pub fn remaining(&self) -> (n: usize)
        ensures
            self.position() <= self.items().len(),
            n == self.items().len() - self.position(),
    {
        proof {
            use_type_invariant(self);
        }
        let len: usize = if self.data.len as usize <= L {
            self.data.len as usize
        } else {
            L
        };
        len - self.index
    }

    /// The next byte of the string, or `None` once all have been handed
    /// out
    pub fn next(&mut self) -> (r: Option<u8>)
        ensures
            final(self).items() == old(self).items(),
            final(self).position() <= final(self).items().len(),
            old(self).position() < old(self).items().len() ==> r == Some(
                old(self).items()[old(self).position() as int],
            ) && final(self).position() == old(self).position() + 1,
            old(self).position() == old(self).items().len() ==> r is None && final(self).position()
                == old(self).position(),
    {
        proof {
            use_type_invariant(&*self);
        }
        let n: usize = if self.data.len as usize <= L {
            self.data.len as usize
        } else {
            L
        };
        if self.index < n {
            let b = self.data.data[self.index];
            self.index = self.index + 1;
            Some(b)
        } else {
            None
        }
    }
}

impl<'a, const L: usize> PetsciiString<'a, L> {
    /// A walk over the bytes of the string, in order
    pub fn into_iter(self) -> (it: IntoIter<'a, L>)
        ensures
            it.items() == self.content(),
            it.position() == 0,
    {
        IntoIter { index: 0, data: self }
    }
}

} // verus!
