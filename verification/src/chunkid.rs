//! Four-byte chunk identifiers and the rules that make one legal.

use core::str::Utf8Error;
use vstd::prelude::*;
use vstd::std_specs::cmp::PartialEqSpec;
use vstd::string::StringSliceAdditionalSpecFns;
use vstd::utf8::*;

verus! {

/// Lowest byte value allowed in an identifier.
pub const LOWER_CHAR_RANGE: u8 = 0x20;

/// Highest byte value allowed in an identifier.
pub const UPPER_CHAR_RANGE: u8 = 0x7E;

/// Byte value of the space character.
pub const SPACE_CHAR_CODE: u8 = 0x20;

/// Why a byte sequence is not a legal chunk identifier.
#[derive(Debug, PartialEq, Eq, Structural)]
pub enum ChunkIdError {
    /// Fewer than four bytes were supplied.
    ShortLength,
    /// One of the first four bytes is not printable ASCII.
    UnsupportedChar,
    /// A space is directly followed by a non-space among the first four bytes.
    SpacePrecedeLetter,
}

impl ChunkIdError {
    /// The sentence that describes the error.
    pub open spec fn message(&self) -> Seq<char> {
        match self {
            ChunkIdError::ShortLength => "ChunkId source should be at least 4 bytes"@,
            ChunkIdError::UnsupportedChar => "ChunkId can contain only displayable ASCII characters"@,
            ChunkIdError::SpacePrecedeLetter => "Space cannot precede letter in ChunkId"@,
        }
    }

    /// Renders the error as the sentence that describes it.
    pub fn to_string(&self) -> (s: String)
        ensures
            s@ == self.message(),
    {
        match self {
            ChunkIdError::ShortLength => {
                "ChunkId source should be at least 4 bytes".to_owned()
            },
            ChunkIdError::UnsupportedChar => {
                "ChunkId can contain only displayable ASCII characters".to_owned()
            },
            ChunkIdError::SpacePrecedeLetter => {
                "Space cannot precede letter in ChunkId".to_owned()
            },
        }
    }
}

/// A byte is allowed when it is printable ASCII.
pub open spec fn allowed_char(b: u8) -> bool {
    LOWER_CHAR_RANGE <= b <= UPPER_CHAR_RANGE
}

/// All of the first four bytes of `s` are allowed.
pub open spec fn all_allowed(s: Seq<u8>) -> bool {
    forall|i: int| 0 <= i < 4 ==> allowed_char(#[trigger] s[i])
}

/// At position `i` a space stands directly before a non-space.
pub open spec fn space_precedes_at(s: Seq<u8>, i: int) -> bool {
    s[i] == SPACE_CHAR_CODE && s[i + 1] != SPACE_CHAR_CODE
}

/// Somewhere among the first four bytes of `s` a space stands directly
/// before a non-space.
pub open spec fn precede_spaces(s: Seq<u8>) -> bool {
    exists|i: int| 0 <= i < 3 && #[trigger] space_precedes_at(s, i)
}

/// The four bytes of `s` that an identifier is made of.
pub open spec fn first_four(s: Seq<u8>) -> Seq<u8> {
    s.subrange(0, 4)
}

/// The four bytes `s` make a legal identifier.
pub open spec fn legal_id(s: Seq<u8>) -> bool {
    &&& s.len() == 4
    &&& all_allowed(s)
    &&& !precede_spaces(s)
}

/// What constructing an identifier from `s` gives: the identifier's bytes,
/// or the first rule that `s` breaks.
pub open spec fn parse_id(s: Seq<u8>) -> Result<Seq<u8>, ChunkIdError> {
    if s.len() < 4 {
        Err(ChunkIdError::ShortLength)
    } else if !all_allowed(s) {
        Err(ChunkIdError::UnsupportedChar)
    } else if precede_spaces(s) {
        Err(ChunkIdError::SpacePrecedeLetter)
    } else {
        Ok(first_four(s))
    }
}

/// From position `k` on the first four bytes of `s` are spaces, and none
/// before it is.
pub open spec fn spaces_from(s: Seq<u8>, k: int) -> bool {
    forall|i: int| 0 <= i < 4 ==> (#[trigger] s[i] == SPACE_CHAR_CODE <==> i >= k)
}

/// The identifiers that the format keeps for grouping chunks.
pub const RESERVED_CHUNK_IDS: [[char; 4]; 32] = [
    ['L', 'I', 'S', 'T'],
    ['L', 'I', 'S', '1'],
    ['L', 'I', 'S', '2'],
    ['L', 'I', 'S', '3'],
    ['L', 'I', 'S', '4'],
    ['L', 'I', 'S', '5'],
    ['L', 'I', 'S', '6'],
    ['L', 'I', 'S', '7'],
    ['L', 'I', 'S', '8'],
    ['L', 'I', 'S', '9'],
    ['F', 'O', 'R', 'M'],
    ['F', 'O', 'R', '1'],
    ['F', 'O', 'R', '2'],
    ['F', 'O', 'R', '3'],
    ['F', 'O', 'R', '4'],
    ['F', 'O', 'R', '5'],
    ['F', 'O', 'R', '6'],
    ['F', 'O', 'R', '7'],
    ['F', 'O', 'R', '8'],
    ['F', 'O', 'R', '9'],
    ['C', 'A', 'T', ' '],
    ['C', 'A', 'T', '1'],
    ['C', 'A', 'T', '2'],
    ['C', 'A', 'T', '3'],
    ['C', 'A', 'T', '4'],
    ['C', 'A', 'T', '5'],
    ['C', 'A', 'T', '6'],
    ['C', 'A', 'T', '7'],
    ['C', 'A', 'T', '8'],
    ['C', 'A', 'T', '9'],
    ['P', 'R', 'O', 'P'],
    [' ', ' ', ' ', ' '],
];

/// The text that the bytes `s` stand for, one character for each byte.
pub open spec fn text_of(s: Seq<u8>) -> Seq<char> {
    Seq::new(s.len(), |i: int| s[i] as char)
}

/// The text `t` is one of the reserved identifiers.
pub open spec fn reserved_text(t: Seq<char>) -> bool {
    exists|i: int| 0 <= i < 32 && #[trigger] RESERVED_CHUNK_IDS[i]@ == t
}

/// A validated four-byte chunk identifier.
#[derive(Debug, Eq)]
pub struct ChunkId([u8; 4]);

impl PartialEq for ChunkId {
    /// Two identifiers are equal when their bytes are.
    fn eq(&self, other: &ChunkId) -> (r: bool) {
        let r = self.0[0] == other.0[0] && self.0[1] == other.0[1] && self.0[2] == other.0[2]
            && self.0[3] == other.0[3];
        assert(r == (self.0@ =~= other.0@));
        r
    }
}

impl vstd::std_specs::cmp::PartialEqSpecImpl for ChunkId {
    open spec fn obeys_eq_spec() -> bool {
        true
    }

    open spec fn eq_spec(&self, other: &ChunkId) -> bool {
        self@ == other@
    }
}

impl View for ChunkId {
    type V = Seq<u8>;

    closed spec fn view(&self) -> Seq<u8> {
        self.0@
    }
}

/// The result `r` is what constructing an identifier from `s` gives.
pub open spec fn constructs(s: Seq<u8>, r: Result<ChunkId, ChunkIdError>) -> bool {
    match r {
        Ok(id) => parse_id(s) == Ok::<Seq<u8>, ChunkIdError>(id@),
        Err(e) => parse_id(s) == Err::<Seq<u8>, ChunkIdError>(e),
    }
}

/// Tests one byte against the range of allowed characters.
fn is_allowed_char(chr: &u8) -> (r: bool)
    ensures
        r == allowed_char(*chr),
{
    *chr >= LOWER_CHAR_RANGE && *chr <= UPPER_CHAR_RANGE
}

/// Looks among the first four bytes of `id` for a space that stands
/// directly before a non-space.
fn has_precede_spaces(id: &[u8]) -> (r: bool)
    requires
        id@.len() >= 4,
    ensures
        r == precede_spaces(id@),
{
    let mut idx: usize = 0;
    while idx < 3
        invariant
            idx <= 3,
            id@.len() >= 4,
            forall|i: int| 0 <= i < idx ==> !#[trigger] space_precedes_at(id@, i),
        decreases 3 - idx,
    {
        if id[idx] == SPACE_CHAR_CODE && id[idx + 1] != SPACE_CHAR_CODE {
            assert(space_precedes_at(id@, idx as int));
            return true;
        }
        idx = idx + 1;
    }
    false
}

/// The error of `core::str::from_utf8`, carried through and never read.
#[verifier::external_type_specification]
#[verifier::external_body]
pub struct ExUtf8Error(Utf8Error);

/// Calls `core::str::from_utf8`, which succeeds exactly on well-formed
/// UTF-8 and then hands back a string slice over the very same bytes.
#[verifier::external_body]
fn utf8_text(bytes: &[u8]) -> (r: Result<&str, Utf8Error>)
    ensures
        r is Ok == valid_utf8(bytes@),
        r matches Ok(s) ==> s.spec_bytes() == bytes@,
{
    core::str::from_utf8(bytes)
}

/// The rules look at the first four bytes only: when `s` breaks none of
/// them, its first four bytes make a legal identifier.
pub proof fn lemma_first_four_legal(s: Seq<u8>)
    requires
        s.len() >= 4,
    ensures
        all_allowed(first_four(s)) == all_allowed(s),
        precede_spaces(first_four(s)) == precede_spaces(s),
        legal_id(first_four(s)) == (parse_id(s) is Ok),
{
    let t = first_four(s);
    assert forall|i: int| 0 <= i < 4 implies t[i] == s[i] by {}
    assert forall|i: int| 0 <= i < 3 implies space_precedes_at(t, i) == space_precedes_at(s, i) by {
        assert(t[i] == s[i] && t[i + 1] == s[i + 1]);
    }
    if all_allowed(s) {
        assert forall|i: int| 0 <= i < 4 implies allowed_char(#[trigger] t[i]) by {
            assert(allowed_char(s[i]));
        }
    }
    if all_allowed(t) {
        assert forall|i: int| 0 <= i < 4 implies allowed_char(#[trigger] s[i]) by {
            assert(allowed_char(t[i]));
        }
    }
    if precede_spaces(s) {
        let i = choose|i: int| 0 <= i < 3 && #[trigger] space_precedes_at(s, i);
        assert(space_precedes_at(t, i));
    }
    if precede_spaces(t) {
        let i = choose|i: int| 0 <= i < 3 && #[trigger] space_precedes_at(t, i);
        assert(space_precedes_at(s, i));
    }
}

/// Printable ASCII bytes are well-formed UTF-8, and the only text that
/// they encode is `text_of` them.
pub proof fn lemma_allowed_bytes_are_text(s: Seq<u8>)
    requires
        forall|i: int| 0 <= i < s.len() ==> allowed_char(#[trigger] s[i]),
    ensures
        valid_utf8(s),
        encode_utf8(text_of(s)) == s,
        forall|t: Seq<char>| encode_utf8(t) == s ==> t == text_of(s),
{
    let chars = text_of(s);
    assert forall|i: int| 0 <= i < chars.len() implies '\0' <= #[trigger] chars[i] <= '\u{7f}' by {
        assert(allowed_char(s[i]));
    }
    is_ascii_chars_encode_utf8(chars);
    assert forall|i: int| 0 <= i < s.len() implies encode_utf8(chars)[i] == s[i] by {
        assert(allowed_char(s[i]));
        assert(chars[i] as u8 == s[i]);
    }
    assert(encode_utf8(chars) =~= s);
    encode_utf8_valid_utf8(chars);
    assert forall|t: Seq<char>| encode_utf8(t) == s implies t == chars by {
        encode_utf8_decode_utf8(t);
        encode_utf8_decode_utf8(chars);
    }
}

impl ChunkId {
    /// Every identifier holds four bytes that break no rule.
    #[verifier::type_invariant]
    spec fn inv(self) -> bool {
        legal_id(self.0@)
    }

    /// Validates the first four bytes of `slice` and keeps them.
    pub fn new(slice: &[u8]) -> (r: Result<ChunkId, ChunkIdError>)
        ensures
            constructs(slice@, r),
            slice@.len() < 4 ==> r == Err::<ChunkId, ChunkIdError>(ChunkIdError::ShortLength),
            slice@.len() >= 4 && !all_allowed(slice@) ==> r == Err::<ChunkId, ChunkIdError>(
                ChunkIdError::UnsupportedChar,
            ),
            slice@.len() >= 4 && all_allowed(slice@) && precede_spaces(slice@) ==> r == Err::<
                ChunkId,
                ChunkIdError,
            >(ChunkIdError::SpacePrecedeLetter),
            slice@.len() >= 4 && all_allowed(slice@) && !precede_spaces(slice@) ==> r is Ok,
            r matches Ok(id) ==> id@ == first_four(slice@) && legal_id(id@),
    {
        if slice.len() < 4 {
            return Err(ChunkIdError::ShortLength);
        }
        let mut idx: usize = 0;
        while idx < 4
            invariant
                idx <= 4,
                slice@.len() >= 4,
                forall|i: int| 0 <= i < idx ==> allowed_char(#[trigger] slice@[i]),
            decreases 4 - idx,
        {
            if !is_allowed_char(&slice[idx]) {
                return Err(ChunkIdError::UnsupportedChar);
            }
            idx = idx + 1;
        }
        if has_precede_spaces(slice) {
            return Err(ChunkIdError::SpacePrecedeLetter);
        }
        let bytes: [u8; 4] = [slice[0], slice[1], slice[2], slice[3]];
        proof {
            assert(bytes@ =~= first_four(slice@));
            lemma_first_four_legal(slice@);
        }
        Ok(ChunkId(bytes))
    }

    /// Validates the first four bytes of the UTF-8 encoding of `str`.
    pub fn from_str(str: &str) -> (r: Result<ChunkId, ChunkIdError>)
        ensures
            constructs(str.spec_bytes(), r),
            r matches Ok(id) ==> id@ == first_four(str.spec_bytes()) && legal_id(id@),
    {
        ChunkId::new(str.as_bytes())
    }

    /// The identifier as text: its four bytes, each read as a character.
    pub fn to_str(&self) -> (s: &str)
        ensures
            s@ == text_of(self@),
            legal_id(self@),
    {
        proof {
            use_type_invariant(self);
            lemma_allowed_bytes_are_text(self.0@);
        }
        match utf8_text(self.0.as_slice()) {
            Ok(s) => s,
            Err(_) => vstd::pervasive::unreached(),
        }
    }

    /// Renders the identifier as its four characters, unquoted.
    pub fn to_string(&self) -> (s: String)
        ensures
            s@ == text_of(self@),
    {
        self.to_str().to_owned()
    }

    /// Whether the identifier is one that the format keeps for grouping
    /// chunks.
    pub fn is_reserved(&self) -> (r: bool)
        ensures
            r == reserved_text(text_of(self@)),
    {
        let mut idx: usize = 0;
        while idx < 32
            invariant
                idx <= 32,
                forall|i: int| 0 <= i < idx ==> #[trigger] RESERVED_CHUNK_IDS[i]@ != text_of(self.0@),
            decreases 32 - idx,
        {
            let tag = RESERVED_CHUNK_IDS[idx];
            if self.0[0] as char == tag[0] && self.0[1] as char == tag[1] && self.0[2] as char
                == tag[2] && self.0[3] as char == tag[3] {
                assert(RESERVED_CHUNK_IDS[idx as int]@ =~= text_of(self.0@));
                return true;
            }
            assert(RESERVED_CHUNK_IDS[idx as int]@ != text_of(self.0@)) by {
                let k = choose|k: int| 0 <= k < 4 && self.0[k] as char != tag[k];
                assert(text_of(self.0@)[k] != RESERVED_CHUNK_IDS[idx as int]@[k]);
            }
            idx = idx + 1;
        }
        false
    }
}

/// Bytes that are all allowed make an identifier exactly when their spaces
/// are all trailing: so an identifier may end in any number of spaces, and
/// may hold one nowhere else.
pub proof fn lemma_trailing_spaces(s: Seq<u8>)
    requires
        s.len() >= 4,
        all_allowed(s),
    ensures
        parse_id(s) is Ok <==> exists|k: int| 0 <= k <= 4 && #[trigger] spaces_from(s, k),
{
    if parse_id(s) is Ok {
        assert(!space_precedes_at(s, 0) && !space_precedes_at(s, 1) && !space_precedes_at(s, 2));
        let k: int = if s[0] == SPACE_CHAR_CODE {
            0
        } else if s[1] == SPACE_CHAR_CODE {
            1
        } else if s[2] == SPACE_CHAR_CODE {
            2
        } else if s[3] == SPACE_CHAR_CODE {
            3
        } else {
            4
        };
        assert(spaces_from(s, k));
    }
    if exists|k: int| 0 <= k <= 4 && #[trigger] spaces_from(s, k) {
        let k = choose|k: int| 0 <= k <= 4 && #[trigger] spaces_from(s, k);
        assert forall|i: int| 0 <= i < 3 implies !#[trigger] space_precedes_at(s, i) by {
            assert(s[i] == SPACE_CHAR_CODE <==> i >= k);
            assert(s[i + 1] == SPACE_CHAR_CODE <==> i + 1 >= k);
        }
    }
}

/// Construction is a function of the bytes it is given: two identifiers
/// made from the same bytes are the same value, compare equal and have the
/// same text.
pub proof fn lemma_same_input_same_id(
    s: Seq<u8>,
    r1: Result<ChunkId, ChunkIdError>,
    r2: Result<ChunkId, ChunkIdError>,
)
    requires
        constructs(s, r1),
        constructs(s, r2),
    ensures
        r1 == r2,
        r1 matches Ok(a) ==> r2 matches Ok(b) ==> a.eq_spec(&b) && text_of(a@) == text_of(b@),
{
    match (r1, r2) {
        (Ok(a), Ok(b)) => {
            assert(a.0@ =~= b.0@);
            assert(a.0 == b.0);
        },
        _ => {},
    }
}

} // verus!
