//! The four-byte type code that names a chunk, and the property bits that
//! the naming convention packs into the case of its letters.
use vstd::prelude::*;

verus! {

/// Mask of the case bit of an ASCII letter: set for lower case.
pub const CASE_BIT: u8 = 32;

/// An ASCII letter, upper or lower case.
pub open spec fn is_ascii_letter(b: u8) -> bool {
    (65 <= b && b <= 90) || (97 <= b && b <= 122)
}

/// The case bit of `b` is clear.
pub open spec fn case_bit_clear(b: u8) -> bool {
    b & CASE_BIT == 0
}

/// The character that stands for a byte when the byte is read as text.
pub open spec fn byte_char(b: u8) -> char {
    b as char
}

/// The text of a type code: one character per byte.
pub open spec fn code_text(code: Seq<u8>) -> Seq<char> {
    code.map_values(|b: u8| byte_char(b))
}

/// A name that is accepted as a type code: exactly four ASCII letters.
pub open spec fn is_valid_name(name: Seq<char>) -> bool {
    &&& name.len() == 4
    &&& forall|i: int| 0 <= i < 4 ==> #[trigger] is_ascii_letter_char(name[i])
}

/// An ASCII letter, upper or lower case, as a character.
pub open spec fn is_ascii_letter_char(c: char) -> bool {
    ('A' <= c && c <= 'Z') || ('a' <= c && c <= 'z')
}

/// The bytes of a name made of ASCII characters: one byte per character.
pub open spec fn name_bytes(name: Seq<char>) -> Seq<u8> {
    name.map_values(|c: char| c as u8)
}

/// Relies on `String::push`: the character is appended at the end.
#[verifier::external_body]
fn push_char(s: &mut String, c: char)
    ensures
        final(s)@ == old(s)@.push(c),
{
    s.push(c);
}

/// Error returned when a name is not exactly four ASCII letters.
#[derive(Debug, Clone, Copy, PartialEq, Eq, Structural)]
pub struct InvalidChunkError;

/// The type code of a chunk: four raw bytes.
#[derive(Debug, Clone, Copy)]
pub struct ChunkType {
    bytes: [u8; 4],
}

impl View for ChunkType {
    type V = Seq<u8>;

    closed spec fn view(&self) -> Seq<u8> {
        self.bytes@
    }
}

impl PartialEq for ChunkType {
    fn eq(&self, other: &ChunkType) -> (r: bool) {
        let r = self.bytes[0] == other.bytes[0] && self.bytes[1] == other.bytes[1]
            && self.bytes[2] == other.bytes[2] && self.bytes[3] == other.bytes[3];
        proof {
            if r {
                assert(self.bytes@ =~= other.bytes@);
            }
        }
        r
    }
}

impl vstd::std_specs::cmp::PartialEqSpecImpl for ChunkType {
    open spec fn obeys_eq_spec() -> bool {
        true
    }

    open spec fn eq_spec(&self, other: &ChunkType) -> bool {
        self@ == other@
    }
}

impl TryFrom<[u8; 4]> for ChunkType {
    type Error = InvalidChunkError;

    /// Wraps four raw bytes; this never fails.
    fn try_from(bytes: [u8; 4]) -> (r: Result<ChunkType, InvalidChunkError>)
        ensures
            r is Ok && r->Ok_0@ == bytes@,
    {
        Ok(ChunkType { bytes })
    }
}

impl vstd::std_specs::convert::TryFromSpecImpl<[u8; 4]> for ChunkType {
    open spec fn obeys_try_from_spec() -> bool {
        true
    }

    closed spec fn try_from_spec(bytes: [u8; 4]) -> Result<ChunkType, InvalidChunkError> {
        Ok(ChunkType { bytes })
    }
}

impl core::str::FromStr for ChunkType {
    type Err = InvalidChunkError;

    /// See the inherent `ChunkType::from_str`.
    fn from_str(name: &str) -> Result<ChunkType, InvalidChunkError> {
        ChunkType::from_str(name)
    }
}

/// Every type code has four bytes.
pub broadcast proof fn lemma_chunk_type_len(t: ChunkType)
    ensures
        #[trigger] t@.len() == 4,
{
}

impl Eq for ChunkType {

}

impl ChunkType {
    /// Wraps four raw bytes; no check is made on them.
    pub fn from_bytes(bytes: [u8; 4]) -> (r: ChunkType)
        ensures
            r@ == bytes@,
    {
        ChunkType { bytes }
    }

    /// Parses a name of exactly four ASCII letters; each letter becomes its byte.
    pub fn from_str(name: &str) -> (r: Result<ChunkType, InvalidChunkError>)
        ensures
            r is Ok <==> is_valid_name(name@),
            r is Ok ==> r->Ok_0@ == name_bytes(name@),
    {
        broadcast use vstd::string::is_ascii_spec_bytes, vstd::utf8::is_ascii_chars_encode_utf8;

        if !name.is_ascii() {
            proof {
                let k = choose|k: int| 0 <= k < name@.len() && !('\0' <= #[trigger] name@[k] <= '\u{7f}');
                assert(!is_ascii_letter_char(name@[k]));
            }
            return Err(InvalidChunkError);
        }
        let b = name.as_bytes();
        assert(b@ =~= name_bytes(name@));
        if b.len() != 4 {
            return Err(InvalidChunkError);
        }
        let mut i: usize = 0;
        while i < 4
            invariant
                0 <= i <= 4,
                b@.len() == 4,
                name@.len() == 4,
                b@ == name_bytes(name@),
                name.is_ascii(),
                forall|j: int| 0 <= j < i ==> #[trigger] is_ascii_letter_char(name@[j]),
            decreases 4 - i,
        {
            let c = b[i];
            if !((65 <= c && c <= 90) || (97 <= c && c <= 122)) {
                assert(!is_ascii_letter_char(name@[i as int]));
                return Err(InvalidChunkError);
            }
            i = i + 1;
        }
        let bytes: [u8; 4] = [b[0], b[1], b[2], b[3]];
        assert(bytes@ =~= name_bytes(name@));
        Ok(ChunkType { bytes })
    }

    /// The type code as text, each byte read as one character.
    pub fn to_string(&self) -> (r: String)
        ensures
            r@ == code_text(self@),
    {
        let mut s = String::new();
        let mut i: usize = 0;
        while i < 4
            invariant
                0 <= i <= 4,
                s@ == code_text(self@.take(i as int)),
            decreases 4 - i,
        {
            push_char(&mut s, self.bytes[i] as char);
            assert(self@.take(i + 1) =~= self@.take(i as int).push(self@[i as int]));
            i = i + 1;
        }
        assert(self@.take(4) =~= self@);
        s
    }

    /// Whether the text of this type code is `name`.
    pub fn has_name(&self, name: &str) -> (r: bool)
        ensures
            r == (code_text(self@) == name@),
    {
        let target: String = name.to_owned();
        self.to_string() == target
    }

    /// The four raw bytes.
    pub fn bytes(&self) -> (r: [u8; 4])
        ensures
            r@ == self@,
    {
        self.bytes
    }

    /// Whether the case bit of `byte` is clear.
    pub fn test_fifth_bit_to_0(byte: u8) -> (r: bool)
        ensures
            r == case_bit_clear(byte),
    {
        byte & CASE_BIT == 0
    }

    /// A critical chunk has an upper-case first letter.
    pub fn is_critical(&self) -> (r: bool)
        ensures
            r == case_bit_clear(self@[0]),
    {
        Self::test_fifth_bit_to_0(self.bytes[0])
    }

    /// A public chunk has an upper-case second letter.
    pub fn is_public(&self) -> (r: bool)
        ensures
            r == case_bit_clear(self@[1]),
    {
        Self::test_fifth_bit_to_0(self.bytes[1])
    }

    /// The reserved third letter must be upper case.
    pub fn is_reserved_bit_valid(&self) -> (r: bool)
        ensures
            r == case_bit_clear(self@[2]),
    {
        Self::test_fifth_bit_to_0(self.bytes[2])
    }

    /// A chunk that is safe to copy has a lower-case fourth letter.
    pub fn is_safe_to_copy(&self) -> (r: bool)
        ensures
            r == !case_bit_clear(self@[3]),
    {
        !Self::test_fifth_bit_to_0(self.bytes[3])
    }

    /// All four bytes are ASCII letters and the reserved bit is valid.
    pub fn is_valid(&self) -> (r: bool)
        ensures
            r == ((forall|i: int| 0 <= i < 4 ==> #[trigger] is_ascii_letter(self@[i]))
                && case_bit_clear(self@[2])),
    {
        let mut i: usize = 0;
        while i < 4
            invariant
                0 <= i <= 4,
                forall|j: int| 0 <= j < i ==> #[trigger] is_ascii_letter(self@[j]),
            decreases 4 - i,
        {
            let b = self.bytes[i];
            if !((65 <= b && b <= 90) || (97 <= b && b <= 122)) {
                assert(!is_ascii_letter(self@[i as int]));
                return false;
            }
            i = i + 1;
        }
        self.is_reserved_bit_valid()
    }
}

} // verus!
