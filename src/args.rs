//! The commands of the command-line tool, and the decisions each takes on
//! the bytes of the files it is given. Reading and writing the files is left
//! to the caller.
use crate::chunk::{Chunk, ChunkError, ChunkModel};
use crate::png::{decode_png, encode_png, has_match, is_first_match, Png, PngError};
use vstd::prelude::*;
use vstd::utf8::{decode_utf8, valid_utf8};

verus! {

/// The parsed command line.
pub struct PngMeArgs {
    pub command_type: CommandType,
}

/// The four commands.
pub enum CommandType {
    /// Encode a message in a chunk and save it in a file.
    Encode(EncodeArgs),
    /// Decode the message of a chunk of a file.
    Decode(DecodeArgs),
    /// Remove a chunk from a file.
    Remove(RemoveArgs),
    /// Print the chunks of a file.
    Print(PrintArgs),
}

pub struct EncodeArgs {
    /// The path of the PNG file.
    pub file_path: String,
    /// The type of the chunk that holds the message.
    pub chunk_type: String,
    /// The message.
    pub message: String,
    /// Where to save the result, if not in the input file.
    pub output_file: Option<String>,
}

pub struct DecodeArgs {
    /// The path of the PNG file.
    pub file_path: String,
    /// The type of the chunk to decode.
    pub chunk_type: String,
}

pub struct RemoveArgs {
    /// The path of the PNG file.
    pub file_path: String,
    /// The type of the chunk to remove.
    pub chunk_type: String,
}

pub struct PrintArgs {
    /// The path of the PNG file.
    pub file_path: String,
}

/// What the contents of a file are.
#[derive(Debug, Clone, Copy, PartialEq, Eq, Structural)]
pub enum FileState {
    /// A whole PNG stream.
    Png,
    /// Nothing.
    Empty,
    /// Something that is not a PNG stream, and why.
    Other(PngError),
}

/// What is to become of the file a chunk was removed from.
pub enum FileUpdate {
    /// Delete it: no chunk is left.
    Delete,
    /// Replace its contents with these bytes.
    Write(Vec<u8>),
    /// Leave it as it is.
    Keep,
}

/// The state of a file with contents `b`.
pub open spec fn file_state(b: Seq<u8>) -> FileState {
    if b.len() == 0 {
        FileState::Empty
    } else {
        match decode_png(b) {
            Ok(_) => FileState::Png,
            Err(e) => FileState::Other(e),
        }
    }
}

/// An encoding into a fresh output file is defined unless the output
/// already holds a PNG stream while the input is one or is empty.
pub open spec fn encode_with_output_defined(input: Seq<u8>, output: Seq<u8>) -> bool {
    !(!(file_state(input) is Other) && file_state(output) is Png)
}

impl EncodeArgs {
    /// Classifies the contents of a file.
    pub fn validate_png(input_contents: &Vec<u8>) -> (r: FileState)
        ensures
            r == file_state(input_contents@),
    {
        if input_contents.len() == 0 {
            FileState::Empty
        } else {
            match Png::decode(input_contents.as_slice()) {
                Ok(_) => FileState::Png,
                Err(e) => FileState::Other(e),
            }
        }
    }

    /// The bytes to write to a separate output file, given the contents of
    /// the input and of the output: the input's chunks followed by `chunk`,
    /// or a stream of `chunk` alone when both are empty.
    pub fn validate_input_with_output(input_buffer: &Vec<u8>, output_buffer: &Vec<u8>, chunk: Chunk) -> (r: Result<
        Vec<u8>,
        PngError,
    >)
        requires
            encode_with_output_defined(input_buffer@, output_buffer@),
        ensures
            match (file_state(input_buffer@), file_state(output_buffer@)) {
                (FileState::Other(e), _) => r is Err && r->Err_0 == e,
                (_, FileState::Other(e)) => r is Err && r->Err_0 == e,
                (FileState::Png, _) => r is Ok && r->Ok_0@ == encode_png(
                    decode_png(input_buffer@)->Ok_0.push(chunk@),
                ),
                _ => r is Ok && r->Ok_0@ == encode_png(seq![chunk@]),
            },
    {
        let input_state = Self::validate_png(input_buffer);
        let output_state = Self::validate_png(output_buffer);
        match (input_state, output_state) {
            (FileState::Other(e), _) => Err(e),
            (_, FileState::Other(e)) => Err(e),
            (FileState::Png, _) => match Png::decode(input_buffer.as_slice()) {
                Ok(mut png) => {
                    png.append_chunk(chunk);
                    Ok(png.as_bytes())
                },
                Err(e) => Err(e),
            },
            _ => {
                let mut chunks: Vec<Chunk> = Vec::new();
                chunks.push(chunk);
                let png = Png::from_chunks(chunks);
                assert(png@ =~= seq![chunk@]);
                Ok(png.as_bytes())
            },
        }
    }

    /// The bytes to append to the input file: the encoding of `chunk` when
    /// the file already holds a PNG stream, a stream of `chunk` alone when it
    /// is empty.
    pub fn validate_input(input_buffer: &Vec<u8>, chunk: Chunk) -> (r: Result<Vec<u8>, PngError>)
        ensures
            match file_state(input_buffer@) {
                FileState::Png => r is Ok && r->Ok_0@ == chunk@.encoded(),
                FileState::Empty => r is Ok && r->Ok_0@ == encode_png(seq![chunk@]),
                FileState::Other(e) => r is Err && r->Err_0 == e,
            },
    {
        match Self::validate_png(input_buffer) {
            FileState::Png => Ok(chunk.as_bytes()),
            FileState::Empty => {
                let mut chunks: Vec<Chunk> = Vec::new();
                chunks.push(chunk);
                let png = Png::from_chunks(chunks);
                assert(png@ =~= seq![chunk@]);
                Ok(png.as_bytes())
            },
            FileState::Other(e) => Err(e),
        }
    }
}

impl DecodeArgs {
    /// The message held by the first chunk of the requested type in the
    /// stream `buffer`.
    pub fn decode_buffer(&self, buffer: &[u8]) -> (r: Result<String, PngError>)
        ensures
            match decode_png(buffer@) {
                Err(e) => r is Err && r->Err_0 == e,
                Ok(cs) => if !has_match(cs, self.chunk_type@) {
                    r is Err && r->Err_0 == PngError::ChunkNotFound
                } else {
                    exists|i: int|
                        #![trigger cs[i]]
                        is_first_match(cs, self.chunk_type@, i) && if valid_utf8(cs[i].data) {
                            r is Ok && r->Ok_0@ == decode_utf8(cs[i].data)
                        } else {
                            r is Err && r->Err_0 == PngError::Chunk(ChunkError::InvalidEncoding)
                        }
                },
            },
    {
        let png = match Png::decode(buffer) {
            Ok(png) => png,
            Err(e) => {
                return Err(e);
            },
        };
        match png.chunk_by_type(self.chunk_type.as_str()) {
            Some(chunk) => match chunk.data_as_string() {
                Ok(s) => Ok(s),
                Err(e) => Err(PngError::Chunk(e)),
            },
            None => Err(PngError::ChunkNotFound),
        }
    }
}

impl RemoveArgs {
    /// Removes the first chunk of the requested type from the stream
    /// `buffer`: returns what becomes of the file and the removed chunk.
    /// A file left without chunks is deleted, even when nothing was removed.
    pub fn remove_from(&self, buffer: &[u8]) -> (r: (FileUpdate, Result<Chunk, PngError>))
        ensures
            match decode_png(buffer@) {
                Err(e) => r.0 is Keep && r.1 is Err && r.1->Err_0 == e,
                Ok(cs) => if !has_match(cs, self.chunk_type@) {
                    &&& r.1 is Err && r.1->Err_0 == PngError::ChunkNotFound
                    &&& if cs.len() == 0 { r.0 is Delete } else { r.0 is Keep }
                } else {
                    exists|i: int|
                        #![trigger cs[i]]
                        {
                            &&& is_first_match(cs, self.chunk_type@, i)
                            &&& r.1 is Ok && r.1->Ok_0@ == cs[i]
                            &&& if cs.len() == 1 {
                                r.0 is Delete
                            } else {
                                r.0 is Write && r.0->Write_0@ == encode_png(cs.remove(i))
                            }
                        }
                },
            },
    {
        let mut png = match Png::decode(buffer) {
            Ok(png) => png,
            Err(e) => {
                return (FileUpdate::Keep, Err(e));
            },
        };
        let removed = png.remove_chunk(self.chunk_type.as_str());
        let left = png.chunks().len();
        assert(left == png@.len());
        let update = if left == 0 {
            FileUpdate::Delete
        } else if removed.is_ok() {
            FileUpdate::Write(png.as_bytes())
        } else {
            FileUpdate::Keep
        };
        (update, removed)
    }
}

} // verus!
