//! A chunk: an identifier, a declared size and the bytes it was read from.

use crate::chunkid::{text_of, ChunkId};
use vstd::prelude::*;

verus! {

/// The character that stands for the digit `d`.
pub open spec fn digit_char(d: int) -> char {
    seq!['0', '1', '2', '3', '4', '5', '6', '7', '8', '9'][d]
}

/// The number `n` written in decimal, without leading zeros.
pub open spec fn decimal_text(n: nat) -> Seq<char>
    decreases n,
{
    if n < 10 {
        seq![digit_char(n as int)]
    } else {
        decimal_text(n / 10).push(digit_char((n % 10) as int))
    }
}

/// How a chunk with the identifier text `id` and the declared size `size`
/// is rendered.
pub open spec fn chunk_text(id: Seq<char>, size: nat) -> Seq<char> {
    "Chunk \""@ + id + "\". Size "@ + decimal_text(size) + " bytes"@
}

/// The one-character string for a decimal digit.
fn digit_str(d: u32) -> (s: &'static str)
    requires
        d < 10,
    ensures
        s@ == seq![digit_char(d as int)],
{
    proof {
        reveal_strlit("0");
        reveal_strlit("1");
        reveal_strlit("2");
        reveal_strlit("3");
        reveal_strlit("4");
        reveal_strlit("5");
        reveal_strlit("6");
        reveal_strlit("7");
        reveal_strlit("8");
        reveal_strlit("9");
    }
    let s = match d {
        0 => "0",
        1 => "1",
        2 => "2",
        3 => "3",
        4 => "4",
        5 => "5",
        6 => "6",
        7 => "7",
        8 => "8",
        _ => "9",
    };
    assert(s@ =~= seq![digit_char(d as int)]);
    s
}

/// Appends `n`, written in decimal, to `out`.
fn push_decimal(out: &mut String, n: u32)
    ensures
        final(out)@ == old(out)@ + decimal_text(n as nat),
    decreases n,
{
    if n >= 10 {
        push_decimal(out, n / 10);
    }
    out.append(digit_str(n % 10));
    assert(final(out)@ =~= old(out)@ + decimal_text(n as nat));
}

/// What a chunk stands for: the bytes of its identifier, its declared size
/// and the bytes that it observes.
pub struct ChunkView {
    pub id: Seq<u8>,
    pub size: int,
    pub data: Seq<u8>,
}

/// An identifier together with a declared size and a read-only view of
/// bytes that holds at least that many.
#[derive(Debug)]
pub struct Chunk<'a> {
    id: ChunkId,
    size: i32,
    data: &'a [u8],
}

impl<'a> View for Chunk<'a> {
    type V = ChunkView;

    closed spec fn view(&self) -> ChunkView {
        ChunkView { id: self.id@, size: self.size as int, data: self.data@ }
    }
}

/// The result `r` is what pairing an identifier of the bytes `id` with the
/// declared `size` and the bytes `data` gives.
pub open spec fn pairs(id: Seq<u8>, size: int, data: Seq<u8>, r: Option<Chunk>) -> bool {
    match r {
        Some(c) => 0 <= size <= data.len() && c@ == (ChunkView { id: id, size: size, data: data }),
        None => !(0 <= size <= data.len()),
    }
}

/// Pairing is a function of what it is given: two chunks made from the same
/// identifier, size and bytes stand for the same value and are rendered
/// alike.
pub proof fn lemma_same_input_same_chunk(
    id: Seq<u8>,
    size: int,
    data: Seq<u8>,
    r1: Option<Chunk>,
    r2: Option<Chunk>,
)
    requires
        pairs(id, size, data, r1),
        pairs(id, size, data, r2),
    ensures
        r1 is Some == r2 is Some,
        r1 matches Some(a) ==> r2 matches Some(b) ==> a@ == b@ && chunk_text(
            text_of(a@.id),
            a@.size as nat,
        ) == chunk_text(text_of(b@.id), b@.size as nat),
{
}

impl<'a> Chunk<'a> {
    /// The declared size never exceeds the bytes that the chunk observes.
    #[verifier::type_invariant]
    spec fn inv(self) -> bool {
        0 <= self.size <= self.data@.len()
    }

    /// Pairs `id` with the declared `size` and the bytes `data`, unless
    /// `size` claims more bytes than `data` holds.
    pub fn new(id: ChunkId, size: i32, data: &'a [u8]) -> (r: Option<Chunk<'a>>)
        ensures
            pairs(id@, size as int, data@, r),
            r is Some <==> 0 <= size <= data@.len(),
            r matches Some(c) ==> c@ == (ChunkView { id: id@, size: size as int, data: data@ }),
    {
        if size < 0 || size as usize > data.len() {
            return None;
        }
        Some(Chunk { id: id, size: size, data: data })
    }

    /// The declared size.
    pub fn len(&self) -> (n: i32)
        ensures
            n == self@.size,
            0 <= n <= self@.data.len(),
    {
        proof {
            use_type_invariant(self);
        }
        self.size
    }

    /// Renders the chunk: its identifier in quotes, then its declared size.
    pub fn to_string(&self) -> (s: String)
        ensures
            self@.size >= 0,
            s@ == chunk_text(text_of(self@.id), self@.size as nat),
    {
        proof {
            use_type_invariant(self);
        }
        let mut s = "Chunk \"".to_owned();
        s.append(self.id.to_str());
        s.append("\". Size ");
        push_decimal(&mut s, self.size as u32);
        s.append(" bytes");
        s
    }
}

} // verus!
