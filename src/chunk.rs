//! One chunk of a PNG stream: a length-prefixed, checksummed record made of
//! a type code and an opaque payload.
use crate::chunk_type::{lemma_chunk_type_len, ChunkType};
use vstd::prelude::*;
use vstd::utf8::{decode_utf8, valid_utf8};

verus! {

broadcast use lemma_chunk_type_len;

/// The CRC-32 (ISO-HDLC, as used by zlib) of a byte sequence.
pub uninterp spec fn crc32_of(bytes: Seq<u8>) -> u32;

/// Relies on `crc::Crc::<u32>::checksum` under the `CRC_32_ISO_HDLC`
/// algorithm: the checksum is a function of the bytes alone.
#[verifier::external_body]
fn crc32(bytes: &[u8]) -> (r: u32)
    ensures
        r == crc32_of(bytes@),
{
    crc::Crc::<u32>::new(&crc::CRC_32_ISO_HDLC).checksum(bytes)
}

/// Relies on `String::from_utf8`: it succeeds exactly on valid UTF-8, and the
/// string then holds the decoded characters.
#[verifier::external_body]
fn utf8_string(bytes: Vec<u8>) -> (r: Option<String>)
    ensures
        r is Some <==> valid_utf8(bytes@),
        r is Some ==> r->Some_0@ == decode_utf8(bytes@),
{
    String::from_utf8(bytes).ok()
}

/// The number that four bytes stand for, most significant byte first.
pub open spec fn be32_value(b: Seq<u8>) -> int {
    b[0] as int * 16777216 + b[1] as int * 65536 + b[2] as int * 256 + b[3] as int
}

/// The four bytes of `n`, most significant byte first.
pub open spec fn be32_bytes(n: u32) -> Seq<u8> {
    seq![(n / 16777216) as u8, (n / 65536 % 256) as u8, (n / 256 % 256) as u8, (n % 256) as u8]
}

/// Reading back the four bytes of a number gives the number.
pub proof fn lemma_be32_round_trip(n: u32)
    ensures
        be32_value(be32_bytes(n)) == n as int,
{
    let b = be32_bytes(n);
    assert(b[0] as int == n as int / 16777216);
    assert(b[1] as int == n as int / 65536 % 256);
    assert(b[2] as int == n as int / 256 % 256);
    assert(b[3] as int == n as int % 256);
    let x = n as int;
    assert(x / 16777216 * 16777216 + x / 65536 % 256 * 65536 + x / 256 % 256 * 256 + x % 256 == x)
        by (nonlinear_arith)
        requires
            0 <= x < 4294967296,
    ;
}

/// Reads the number stored big-endian in `b[at..at + 4]`.
fn read_be32(b: &[u8], at: usize) -> (r: u32)
    requires
        at + 4 <= b@.len(),
    ensures
        r as int == be32_value(b@.subrange(at as int, at + 4)),
{
    (b[at] as u32) * 16777216 + (b[at + 1] as u32) * 65536 + (b[at + 2] as u32) * 256 + (b[at + 3] as u32)
}

/// Appends the four bytes of `n`, most significant first.
fn push_be32(out: &mut Vec<u8>, n: u32)
    ensures
        final(out)@ == old(out)@ + be32_bytes(n),
{
    out.push((n / 16777216) as u8);
    out.push((n / 65536 % 256) as u8);
    out.push((n / 256 % 256) as u8);
    out.push((n % 256) as u8);
    assert(final(out)@ =~= old(out)@ + be32_bytes(n));
}

/// What a chunk holds: its type code and its payload. Its length and its
/// checksum follow from these.
pub ghost struct ChunkModel {
    pub kind: Seq<u8>,
    pub data: Seq<u8>,
}

impl ChunkModel {
    /// A type code of four bytes and a payload whose length fits in 32 bits.
    pub open spec fn wf(self) -> bool {
        self.kind.len() == 4 && self.data.len() <= u32::MAX
    }

    /// The checksum of the chunk: the CRC of the type code followed by the payload.
    pub open spec fn crc(self) -> u32 {
        crc32_of(self.kind + self.data)
    }

    /// Number of bytes that the encoded chunk takes.
    pub open spec fn encoded_len(self) -> nat {
        12 + self.data.len()
    }

    /// The canonical encoding: length, type code, payload, checksum.
    #[verifier::opaque]
    pub open spec fn encoded(self) -> Seq<u8> {
        be32_bytes(self.data.len() as u32) + self.kind + self.data + be32_bytes(self.crc())
    }
}

/// Why bytes could not be read as a chunk, or a payload as text.
#[derive(Debug, Clone, Copy, PartialEq, Eq, Structural)]
pub enum ChunkError {
    /// Fewer bytes are left than the chunk's fields demand.
    Truncated,
    /// The stored checksum differs from the one computed over type and payload.
    ChecksumMismatch,
    /// The payload is not valid UTF-8.
    InvalidEncoding,
}

/// The chunk that the front of `b` encodes, if any: a 4-byte length `n`,
/// a 4-byte type code, `n` bytes of payload and a 4-byte checksum, which
/// must match the one computed over type code and payload.
pub open spec fn decode_chunk(b: Seq<u8>) -> Result<ChunkModel, ChunkError> {
    if b.len() < 8 {
        Err(ChunkError::Truncated)
    } else {
        let n = be32_value(b.subrange(0, 4));
        if b.len() < 12 + n {
            Err(ChunkError::Truncated)
        } else {
            let m = ChunkModel { kind: b.subrange(4, 8), data: b.subrange(8, 8 + n) };
            if be32_value(b.subrange(8 + n, 12 + n)) != m.crc() as int {
                Err(ChunkError::ChecksumMismatch)
            } else {
                Ok(m)
            }
        }
    }
}

/// Decoding the encoding of a chunk, whatever bytes follow it, gives the
/// chunk back; it takes exactly the encoded bytes.
pub proof fn lemma_chunk_round_trip(c: ChunkModel, rest: Seq<u8>)
    requires
        c.wf(),
    ensures
        decode_chunk(c.encoded() + rest) == Ok::<ChunkModel, ChunkError>(c),
        c.encoded().len() == c.encoded_len(),
{
    reveal(ChunkModel::encoded);
    let b = c.encoded() + rest;
    let n = c.data.len() as int;
    lemma_be32_round_trip(n as u32);
    lemma_be32_round_trip(c.crc());
    assert(b.subrange(0, 4) =~= be32_bytes(n as u32));
    assert(b.subrange(4, 8) =~= c.kind);
    assert(b.subrange(8, 8 + n) =~= c.data);
    assert(b.subrange(8 + n, 12 + n) =~= be32_bytes(c.crc()));
}

/// The checksum of a chunk depends on its type code and payload alone:
/// chunks with equal type codes and equal payloads have equal checksums.
pub proof fn lemma_crc_determined(a: ChunkModel, b: ChunkModel)
    requires
        a.kind == b.kind,
        a.data == b.data,
    ensures
        a.crc() == b.crc(),
{
}

/// `b` with bit `bit` of its byte at `pos` inverted.
pub open spec fn flip_bit(b: Seq<u8>, pos: int, bit: u8) -> Seq<u8> {
    b.update(pos, b[pos] ^ (1u8 << bit))
}

/// Inverting any bit of the stored checksum of an encoded chunk makes
/// decoding fail with a checksum mismatch.
pub proof fn lemma_checksum_flip_rejected(c: ChunkModel, pos: int, bit: u8)
    requires
        c.wf(),
        c.encoded_len() - 4 <= pos < c.encoded_len(),
        bit < 8,
    ensures
        decode_chunk(flip_bit(c.encoded(), pos, bit)) == Err::<ChunkModel, ChunkError>(
            ChunkError::ChecksumMismatch,
        ),
{
    let b = c.encoded();
    let n = c.data.len() as int;
    lemma_chunk_round_trip(c, Seq::empty());
    assert(b + Seq::<u8>::empty() =~= b);
    let f = flip_bit(b, pos, bit);
    let x = b[pos];
    assert(x ^ (1u8 << bit) != x) by (bit_vector)
        requires
            bit < 8,
    ;
    assert(f.subrange(0, 4) =~= b.subrange(0, 4));
    assert(f.subrange(4, 8) =~= b.subrange(4, 8));
    assert(f.subrange(8, 8 + n) =~= b.subrange(8, 8 + n));
    let s = b.subrange(8 + n, 12 + n);
    let t = f.subrange(8 + n, 12 + n);
    let j = pos - (8 + n);
    assert(t[j] != s[j]);
    assert forall|k: int| 0 <= k < 4 && k != j implies t[k] == s[k] by {}
    assert(be32_value(t) != be32_value(s));
}

/// A chunk. Its length is the length of its payload and its checksum is
/// the CRC of its type code followed by its payload.
#[derive(Debug)]
pub struct Chunk {
    length: u32,
    chunk_type: ChunkType,
    chunk_data: Vec<u8>,
    crc: u32,
}

impl View for Chunk {
    type V = ChunkModel;

    closed spec fn view(&self) -> ChunkModel {
        ChunkModel { kind: self.chunk_type@, data: self.chunk_data@ }
    }
}

impl Chunk {
    #[verifier::type_invariant]
    closed spec fn inv(self) -> bool {
        &&& self.length as int == self.chunk_data@.len()
        &&& self.crc == crc32_of(self.chunk_type@ + self.chunk_data@)
    }

    /// Builds a chunk from its type code and payload, computing its length and checksum.
    pub fn new(chunk_type: ChunkType, data: Vec<u8>) -> (r: Chunk)
        requires
            data@.len() <= u32::MAX,
        ensures
            r@ == (ChunkModel { kind: chunk_type@, data: data@ }),
            r@.wf(),
    {
        let crc = Self::calculate_crc(&chunk_type, data.as_slice());
        Chunk { length: data.len() as u32, chunk_type, chunk_data: data, crc }
    }

    /// Number of payload bytes.
    pub fn length(&self) -> (r: u32)
        ensures
            r as int == self@.data.len(),
    {
        proof {
            use_type_invariant(self);
        }
        self.length
    }

    /// The stored checksum, which is always the computed one.
    pub fn crc(&self) -> (r: u32)
        ensures
            r == self@.crc(),
    {
        proof {
            use_type_invariant(self);
        }
        self.crc
    }

    /// The type code.
    pub fn chunk_type(&self) -> (r: &ChunkType)
        ensures
            r@ == self@.kind,
    {
        &self.chunk_type
    }

    /// The payload.
    pub fn data(&self) -> (r: &[u8])
        ensures
            r@ == self@.data,
    {
        self.chunk_data.as_slice()
    }

    /// The payload read as UTF-8 text.
    pub fn data_as_string(&self) -> (r: Result<String, ChunkError>)
        ensures
            r is Ok <==> valid_utf8(self@.data),
            r is Ok ==> r->Ok_0@ == decode_utf8(self@.data),
            r is Err ==> r->Err_0 == ChunkError::InvalidEncoding,
    {
        match utf8_string(vstd::slice::slice_to_vec(self.chunk_data.as_slice())) {
            Some(s) => Ok(s),
            None => Err(ChunkError::InvalidEncoding),
        }
    }

    /// The canonical encoding: big-endian length, type code, payload, big-endian checksum.
    pub fn as_bytes(&self) -> (r: Vec<u8>)
        ensures
            r@ == self@.encoded(),
            self@.wf(),
            decode_chunk(r@) == Ok::<ChunkModel, ChunkError>(self@),
    {
        proof {
            use_type_invariant(self);
            reveal(ChunkModel::encoded);
        }
        let mut out: Vec<u8> = Vec::new();
        push_be32(&mut out, self.length);
        let kind = self.chunk_type.bytes();
        out.push(kind[0]);
        out.push(kind[1]);
        out.push(kind[2]);
        out.push(kind[3]);
        out.extend_from_slice(self.chunk_data.as_slice());
        push_be32(&mut out, self.crc);
        assert(out@ =~= self@.encoded());
        proof {
            lemma_chunk_round_trip(self@, Seq::empty());
            assert(out@ + Seq::<u8>::empty() =~= out@);
        }
        out
    }

    /// The checksum of a chunk with this type code and payload.
    pub fn calculate_crc(chunk_type: &ChunkType, data: &[u8]) -> (r: u32)
        ensures
            r == crc32_of(chunk_type@ + data@),
    {
        let kind = chunk_type.bytes();
        let mut buf: Vec<u8> = Vec::new();
        buf.push(kind[0]);
        buf.push(kind[1]);
        buf.push(kind[2]);
        buf.push(kind[3]);
        buf.extend_from_slice(data);
        assert(buf@ =~= chunk_type@ + data@);
        crc32(buf.as_slice())
    }

    /// Reads the chunk at the front of `bytes`; it takes `12 + length` bytes.
    pub fn decode(bytes: &[u8]) -> (r: Result<Chunk, ChunkError>)
        ensures
            match decode_chunk(bytes@) {
                Ok(m) => r is Ok && r->Ok_0@ == m,
                Err(e) => r is Err && r->Err_0 == e,
            },
    {
        if bytes.len() < 8 {
            return Err(ChunkError::Truncated);
        }
        let length = read_be32(bytes, 0);
        let n = length as usize;
        if bytes.len() - 8 < n || bytes.len() - 8 - n < 4 {
            return Err(ChunkError::Truncated);
        }
        let chunk_type = ChunkType::from_bytes([bytes[4], bytes[5], bytes[6], bytes[7]]);
        assert(chunk_type@ =~= bytes@.subrange(4, 8));
        let data = vstd::slice::slice_to_vec(&bytes[8..8 + n]);
        let stored = read_be32(bytes, 8 + n);
        let crc = Self::calculate_crc(&chunk_type, data.as_slice());
        if stored != crc {
            return Err(ChunkError::ChecksumMismatch);
        }
        Ok(Chunk { length, chunk_type, chunk_data: data, crc })
    }
}

impl<'a> TryFrom<&'a [u8]> for Chunk {
    type Error = ChunkError;

    /// Reads the chunk at the front of `bytes`, as `Chunk::decode` does.
    fn try_from(bytes: &'a [u8]) -> (r: Result<Chunk, ChunkError>)
        ensures
            match decode_chunk(bytes@) {
                Ok(m) => r is Ok && r->Ok_0@ == m,
                Err(e) => r is Err && r->Err_0 == e,
            },
    {
        Chunk::decode(bytes)
    }
}

impl<'a> vstd::std_specs::convert::TryFromSpecImpl<&'a [u8]> for Chunk {
    open spec fn obeys_try_from_spec() -> bool {
        false
    }

    open spec fn try_from_spec(bytes: &'a [u8]) -> Result<Chunk, ChunkError> {
        arbitrary()
    }
}

} // verus!
