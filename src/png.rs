//! A PNG container: a fixed signature followed by chunks back to back.
use crate::chunk::{decode_chunk, lemma_chunk_round_trip, Chunk, ChunkError, ChunkModel};
use crate::chunk_type::{code_text, lemma_chunk_type_len};
use vstd::prelude::*;

verus! {

broadcast use lemma_chunk_type_len;

/// The eight bytes that open every PNG stream.
pub open spec fn signature() -> Seq<u8> {
    seq![137u8, 80u8, 78u8, 71u8, 13u8, 10u8, 26u8, 10u8]
}

/// The chunks that `b` encodes back to back, up to its last byte.
pub open spec fn decode_chunks(b: Seq<u8>) -> Result<Seq<ChunkModel>, ChunkError>
    decreases b.len(),
{
    if b.len() == 0 {
        Ok(Seq::empty())
    } else {
        match decode_chunk(b) {
            Err(e) => Err(e),
            Ok(c) => prepend(seq![c], decode_chunks(b.subrange(c.encoded_len() as int, b.len() as int))),
        }
    }
}

/// `done` followed by the chunks of `rest`, or the failure of `rest`.
pub open spec fn prepend(done: Seq<ChunkModel>, rest: Result<Seq<ChunkModel>, ChunkError>) -> Result<
    Seq<ChunkModel>,
    ChunkError,
> {
    match rest {
        Ok(cs) => Ok(done + cs),
        Err(e) => Err(e),
    }
}

/// The encodings of `cs`, back to back.
pub open spec fn encode_chunks(cs: Seq<ChunkModel>) -> Seq<u8>
    decreases cs.len(),
{
    if cs.len() == 0 {
        Seq::empty()
    } else {
        cs[0].encoded() + encode_chunks(cs.subrange(1, cs.len() as int))
    }
}

/// The whole stream for `cs`: signature, then every chunk in order.
pub open spec fn encode_png(cs: Seq<ChunkModel>) -> Seq<u8> {
    signature() + encode_chunks(cs)
}

/// The chunks of a whole stream, or why it is not one.
pub open spec fn decode_png(b: Seq<u8>) -> Result<Seq<ChunkModel>, PngError> {
    if b.len() < 8 || b.subrange(0, 8) != signature() {
        Err(PngError::InvalidHeader)
    } else {
        match decode_chunks(b.subrange(8, b.len() as int)) {
            Ok(cs) => Ok(cs),
            Err(e) => Err(PngError::Chunk(e)),
        }
    }
}

/// The chunk at `i` is named `name`, and none before it is.
pub open spec fn is_first_match(cs: Seq<ChunkModel>, name: Seq<char>, i: int) -> bool {
    &&& 0 <= i < cs.len()
    &&& code_text(cs[i].kind) == name
    &&& forall|j: int| 0 <= j < i ==> code_text(#[trigger] cs[j].kind) != name
}

/// Some chunk of `cs` is named `name`.
pub open spec fn has_match(cs: Seq<ChunkModel>, name: Seq<char>) -> bool {
    exists|i: int| 0 <= i < cs.len() && code_text(#[trigger] cs[i].kind) == name
}

/// Adding a chunk at the end adds its encoding at the end.
proof fn lemma_encode_chunks_push(cs: Seq<ChunkModel>, c: ChunkModel)
    ensures
        encode_chunks(cs.push(c)) == encode_chunks(cs) + c.encoded(),
    decreases cs.len(),
{
    let p = cs.push(c);
    if cs.len() == 0 {
        assert(p.subrange(1, p.len() as int) =~= Seq::<ChunkModel>::empty());
        assert(p[0] == c);
        assert(encode_chunks(p) == p[0].encoded() + encode_chunks(p.subrange(1, p.len() as int)));
        assert(encode_chunks(p) =~= encode_chunks(cs) + c.encoded());
    } else {
        let t = cs.subrange(1, cs.len() as int);
        assert(p.subrange(1, p.len() as int) =~= t.push(c));
        lemma_encode_chunks_push(t, c);
        assert(p[0] == cs[0]);
        assert(encode_chunks(p) == p[0].encoded() + encode_chunks(t.push(c)));
        assert(encode_chunks(cs) == cs[0].encoded() + encode_chunks(t));
        assert(encode_chunks(p) =~= encode_chunks(cs) + c.encoded());
    }
}

/// Reading back the encodings of well-formed chunks gives the same chunks.
pub proof fn lemma_chunks_round_trip(cs: Seq<ChunkModel>)
    requires
        forall|i: int| 0 <= i < cs.len() ==> (#[trigger] cs[i]).wf(),
    ensures
        decode_chunks(encode_chunks(cs)) == Ok::<Seq<ChunkModel>, ChunkError>(cs),
    decreases cs.len(),
{
    if cs.len() > 0 {
        let c = cs[0];
        let t = cs.subrange(1, cs.len() as int);
        let b = encode_chunks(cs);
        assert(c.wf());
        assert(b == c.encoded() + encode_chunks(t));
        lemma_chunk_round_trip(c, encode_chunks(t));
        assert(b.len() > 0);
        assert(decode_chunk(b) == Ok::<ChunkModel, ChunkError>(c));
        assert(b.subrange(c.encoded_len() as int, b.len() as int) =~= encode_chunks(t));
        assert forall|i: int| 0 <= i < t.len() implies (#[trigger] t[i]).wf() by {
            assert(t[i] == cs[i + 1]);
        }
        lemma_chunks_round_trip(t);
        assert(decode_chunks(b) == prepend(seq![c], decode_chunks(encode_chunks(t))));
        assert(seq![c] + t =~= cs);
    } else {
        assert(cs =~= Seq::<ChunkModel>::empty());
    }
}

/// Round trip: reading back the stream written for well-formed chunks gives
/// the same chunks, in the same order.
pub proof fn lemma_round_trip(cs: Seq<ChunkModel>)
    requires
        forall|i: int| 0 <= i < cs.len() ==> (#[trigger] cs[i]).wf(),
    ensures
        decode_png(encode_png(cs)) == Ok::<Seq<ChunkModel>, PngError>(cs),
{
    let b = encode_png(cs);
    assert(b.subrange(0, 8) =~= signature());
    assert(b.subrange(8, b.len() as int) =~= encode_chunks(cs));
    lemma_chunks_round_trip(cs);
}

/// A stream that does not start with the signature is rejected as such,
/// whatever its length and whatever follows.
pub proof fn lemma_header_rejected(b: Seq<u8>)
    requires
        !(b.len() >= 8 && b.subrange(0, 8) == signature()),
    ensures
        decode_png(b) == Err::<Seq<ChunkModel>, PngError>(PngError::InvalidHeader),
{
}

/// `done` then `rest` extended by one more chunk.
proof fn lemma_prepend_push(
    done: Seq<ChunkModel>,
    c: ChunkModel,
    rest: Result<Seq<ChunkModel>, ChunkError>,
)
    ensures
        prepend(done, prepend(seq![c], rest)) == prepend(done.push(c), rest),
{
    if let Ok(cs) = rest {
        assert(done + (seq![c] + cs) =~= done.push(c) + cs);
    }
}

/// Why a stream could not be read, or a chunk not removed.
#[derive(Debug, Clone, Copy, PartialEq, Eq, Structural)]
pub enum PngError {
    /// The stream is shorter than the signature or does not start with it.
    InvalidHeader,
    /// A chunk of the stream could not be read.
    Chunk(ChunkError),
    /// No chunk has the requested type.
    ChunkNotFound,
}

/// A PNG container: its chunks in file order.
#[derive(Debug)]
pub struct Png {
    chunks: Vec<Chunk>,
}

impl View for Png {
    type V = Seq<ChunkModel>;

    closed spec fn view(&self) -> Seq<ChunkModel> {
        self.chunks@.map_values(|c: Chunk| c@)
    }
}

impl Png {
    /// The signature bytes.
    pub fn standard_header() -> (r: [u8; 8])
        ensures
            r@ == signature(),
    {
        let r: [u8; 8] = [137, 80, 78, 71, 13, 10, 26, 10];
        assert(r@ =~= signature());
        r
    }

    /// Reads a whole stream: the signature, then chunks up to the last byte.
    /// Any failure aborts the whole read.
    pub fn decode(bytes: &[u8]) -> (r: Result<Png, PngError>)
        ensures
            match decode_png(bytes@) {
                Ok(cs) => r is Ok && r->Ok_0@ == cs,
                Err(e) => r is Err && r->Err_0 == e,
            },
    {
        if bytes.len() < 8 {
            return Err(PngError::InvalidHeader);
        }
        let header = Self::standard_header();
        let mut k: usize = 0;
        while k < 8
            invariant
                0 <= k <= 8,
                bytes@.len() >= 8,
                header@ == signature(),
                bytes@.subrange(0, k as int) == signature().subrange(0, k as int),
            decreases 8 - k,
        {
            if bytes[k] != header[k] {
                assert(bytes@.subrange(0, 8)[k as int] != signature()[k as int]);
                return Err(PngError::InvalidHeader);
            }
            assert(bytes@.subrange(0, k + 1) =~= signature().subrange(0, k + 1));
            k = k + 1;
        }
        assert(bytes@.subrange(0, 8) =~= signature());
        let len = bytes.len();
        let mut chunks: Vec<Chunk> = Vec::new();
        let mut cursor: usize = 8;
        assert(chunks@.map_values(|c: Chunk| c@) =~= Seq::<ChunkModel>::empty());
        assert(Seq::<ChunkModel>::empty() + Seq::<ChunkModel>::empty() =~= Seq::<ChunkModel>::empty());
        while cursor < len
            invariant
                8 <= cursor <= len,
                len == bytes@.len(),
                bytes@.subrange(0, 8) == signature(),
                decode_chunks(bytes@.subrange(8, len as int)) == prepend(
                    chunks@.map_values(|c: Chunk| c@),
                    decode_chunks(bytes@.subrange(cursor as int, len as int)),
                ),
            decreases len - cursor,
        {
            let rest = &bytes[cursor..len];
            let ghost done = chunks@.map_values(|c: Chunk| c@);
            match Chunk::decode(rest) {
                Err(e) => {
                    assert(decode_chunks(rest@) == Err::<Seq<ChunkModel>, ChunkError>(e));
                    return Err(PngError::Chunk(e));
                },
                Ok(c) => {
                    let n = c.length() as usize;
                    let ghost m = c@;
                    assert(rest@.subrange(m.encoded_len() as int, rest@.len() as int) =~= bytes@.subrange(
                        cursor + m.encoded_len(),
                        len as int,
                    ));
                    cursor = cursor + 12 + n;
                    chunks.push(c);
                    proof {
                        lemma_prepend_push(done, m, decode_chunks(bytes@.subrange(cursor as int, len as int)));
                        assert(chunks@.map_values(|c: Chunk| c@) =~= done.push(m));
                    }
                },
            }
        }
        assert(chunks@.map_values(|c: Chunk| c@) + Seq::<ChunkModel>::empty() =~= chunks@.map_values(|c: Chunk| c@));
        Ok(Png { chunks })
    }

    /// The whole stream: the signature, then the encoding of every chunk in order.
    pub fn as_bytes(&self) -> (r: Vec<u8>)
        ensures
            r@ == encode_png(self@),
            decode_png(r@) == Ok::<Seq<ChunkModel>, PngError>(self@),
    {
        let header = Self::standard_header();
        let mut out: Vec<u8> = Vec::new();
        out.extend_from_slice(&header);
        let mut i: usize = 0;
        assert(self@.subrange(0, 0) =~= Seq::<ChunkModel>::empty());
        assert(out@ =~= signature() + encode_chunks(self@.subrange(0, 0)));
        while i < self.chunks.len()
            invariant
                0 <= i <= self.chunks@.len(),
                self@.len() == self.chunks@.len(),
                out@ == signature() + encode_chunks(self@.subrange(0, i as int)),
                forall|j: int| 0 <= j < i ==> (#[trigger] self@[j]).wf(),
            decreases self.chunks@.len() - i,
        {
            let bytes = self.chunks[i].as_bytes();
            out.extend_from_slice(bytes.as_slice());
            proof {
                lemma_encode_chunks_push(self@.subrange(0, i as int), self@[i as int]);
                assert(self@.subrange(0, i + 1) =~= self@.subrange(0, i as int).push(self@[i as int]));
            }
            i = i + 1;
        }
        assert(self@.subrange(0, i as int) =~= self@);
        proof {
            lemma_round_trip(self@);
        }
        out
    }

    /// Wraps the chunks, in the given order.
    pub fn from_chunks(chunks: Vec<Chunk>) -> (r: Png)
        ensures
            r@ == chunks@.map_values(|c: Chunk| c@),
    {
        Png { chunks }
    }

    /// The chunks in order.
    pub fn chunks(&self) -> (r: &[Chunk])
        ensures
            r@.map_values(|c: Chunk| c@) == self@,
    {
        self.chunks.as_slice()
    }

    /// Index of the first chunk named `name`.
    fn find_index(&self, name: &str) -> (r: Option<usize>)
        ensures
            r is Some <==> has_match(self@, name@),
            r is Some ==> is_first_match(self@, name@, r->Some_0 as int),
    {
        let mut i: usize = 0;
        while i < self.chunks.len()
            invariant
                0 <= i <= self.chunks@.len(),
                self@.len() == self.chunks@.len(),
                forall|j: int| 0 <= j < i ==> code_text(#[trigger] self@[j].kind) != name@,
            decreases self.chunks@.len() - i,
        {
            if self.chunks[i].chunk_type().has_name(name) {
                assert(code_text(self@[i as int].kind) == name@);
                return Some(i);
            }
            i = i + 1;
        }
        None
    }

    /// The first chunk named `name`, if any.
    pub fn chunk_by_type(&self, name: &str) -> (r: Option<&Chunk>)
        ensures
            r is Some <==> has_match(self@, name@),
            r is Some ==> exists|i: int|
                is_first_match(self@, name@, i) && r->Some_0@ == #[trigger] self@[i],
    {
        match self.find_index(name) {
            Some(i) => Some(&self.chunks[i]),
            None => None,
        }
    }

    /// Adds a chunk at the end.
    pub fn append_chunk(&mut self, chunk: Chunk)
        ensures
            final(self)@ == old(self)@.push(chunk@),
    {
        self.chunks.push(chunk);
        assert(final(self)@ =~= old(self)@.push(chunk@));
    }

    /// Removes and returns the first chunk named `name`; the others keep
    /// their order. Without such a chunk nothing changes.
    pub fn remove_chunk(&mut self, name: &str) -> (r: Result<Chunk, PngError>)
        ensures
            r is Ok <==> has_match(old(self)@, name@),
            r is Ok ==> exists|i: int|
                is_first_match(old(self)@, name@, i) && r->Ok_0@ == #[trigger] old(self)@[i]
                    && final(self)@ == old(self)@.remove(i),
            r is Err ==> r->Err_0 == PngError::ChunkNotFound && final(self)@ == old(self)@,
    {
        match self.find_index(name) {
            Some(i) => {
                let c = self.chunks.remove(i);
                assert(final(self)@ =~= old(self)@.remove(i as int));
                Ok(c)
            },
            None => Err(PngError::ChunkNotFound),
        }
    }
}

impl<'a> TryFrom<&'a [u8]> for Png {
    type Error = PngError;

    /// Reads a whole stream, as `Png::decode` does.
    fn try_from(bytes: &'a [u8]) -> (r: Result<Png, PngError>)
        ensures
            match decode_png(bytes@) {
                Ok(cs) => r is Ok && r->Ok_0@ == cs,
                Err(e) => r is Err && r->Err_0 == e,
            },
    {
        Png::decode(bytes)
    }
}

impl<'a> vstd::std_specs::convert::TryFromSpecImpl<&'a [u8]> for Png {
    open spec fn obeys_try_from_spec() -> bool {
        false
    }

    open spec fn try_from_spec(bytes: &'a [u8]) -> Result<Png, PngError> {
        arbitrary()
    }
}

} // verus!
