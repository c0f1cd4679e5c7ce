use pngme::args::{DecodeArgs, EncodeArgs, FileState, FileUpdate, RemoveArgs};
use pngme::{Chunk, ChunkError, ChunkType, Png, PngError};
use std::str::FromStr;

fn chunk(name: &str, data: &str) -> Chunk {
    Chunk::new(ChunkType::from_str(name).unwrap(), data.as_bytes().to_vec())
}

fn three_chunks() -> Vec<Chunk> {
    vec![
        chunk("FrSt", "I am the first chunk"),
        chunk("miDl", "I am another chunk"),
        chunk("LASt", "I am the last chunk"),
    ]
}

fn same_chunk(a: &Chunk, b: &Chunk) -> bool {
    a.chunk_type() == b.chunk_type() && a.data() == b.data() && a.crc() == b.crc() && a.length() == b.length()
}

fn header_only() -> Vec<u8> {
    Png::standard_header().to_vec()
}

#[test]
fn round_trip_keeps_chunks_in_order() {
    let png = Png::from_chunks(three_chunks());
    let bytes = png.as_bytes();
    let back = Png::decode(&bytes).unwrap();
    assert_eq!(back.chunks().len(), 3);
    for (a, b) in png.chunks().iter().zip(back.chunks().iter()) {
        assert!(same_chunk(a, b));
    }
    assert_eq!(back.as_bytes(), bytes);
}

#[test]
fn round_trip_of_empty_container() {
    let png = Png::from_chunks(Vec::new());
    let bytes = png.as_bytes();
    assert_eq!(bytes, vec![137, 80, 78, 71, 13, 10, 26, 10]);
    assert_eq!(Png::decode(&bytes).unwrap().chunks().len(), 0);
}

#[test]
fn chunk_round_trip_with_empty_payload() {
    let c = Chunk::new(ChunkType::from_str("IEND").unwrap(), Vec::new());
    let bytes = c.as_bytes();
    assert_eq!(bytes, vec![0, 0, 0, 0, 73, 69, 78, 68, 0xAE, 0x42, 0x60, 0x82]);
    let back = Chunk::decode(&bytes).unwrap();
    assert!(same_chunk(&c, &back));
}

#[test]
fn crc_is_determined_by_type_and_data() {
    let a = chunk("RuSt", "This is where your secret message will be!");
    let b = chunk("RuSt", "This is where your secret message will be!");
    assert_eq!(a.crc(), b.crc());
    assert_eq!(a.crc(), 2882656334);
    let c = chunk("RuSt", "This is where your secret message will be?");
    assert_ne!(a.crc(), c.crc());
}

#[test]
fn calculate_crc_covers_type_and_data() {
    let t = ChunkType::from_str("IEND").unwrap();
    assert_eq!(Chunk::calculate_crc(&t, &[]), 0xAE426082);
}

#[test]
fn header_rejection_regardless_of_rest() {
    let good = Png::from_chunks(three_chunks()).as_bytes();
    for i in 0..8 {
        let mut bad = good.clone();
        bad[i] ^= 1;
        assert_eq!(Png::decode(&bad).unwrap_err(), PngError::InvalidHeader);
    }
    assert_eq!(Png::decode(&[]).unwrap_err(), PngError::InvalidHeader);
    assert_eq!(Png::decode(&[137, 80, 78, 71, 13, 10, 26]).unwrap_err(), PngError::InvalidHeader);
    assert_eq!(Png::decode(&[0; 8]).unwrap_err(), PngError::InvalidHeader);
}

#[test]
fn checksum_rejection_of_any_flipped_bit() {
    let c = chunk("TeSt", "abc");
    let bytes = c.as_bytes();
    for pos in 8..bytes.len() {
        for bit in 0..8 {
            let mut bad = bytes.clone();
            bad[pos] ^= 1 << bit;
            assert_eq!(Chunk::decode(&bad).unwrap_err(), ChunkError::ChecksumMismatch);
        }
    }
}

#[test]
fn checksum_rejection_inside_container() {
    let mut bytes = Png::from_chunks(three_chunks()).as_bytes();
    bytes[8 + 8] ^= 4;
    assert_eq!(Png::decode(&bytes).unwrap_err(), PngError::Chunk(ChunkError::ChecksumMismatch));
}

#[test]
fn truncated_chunks_are_rejected() {
    let bytes = chunk("TeSt", "abc").as_bytes();
    for len in 0..bytes.len() {
        assert_eq!(Chunk::decode(&bytes[..len]).unwrap_err(), ChunkError::Truncated);
    }
    let mut long = bytes.clone();
    long.push(7);
    assert_eq!(Chunk::decode(&long).unwrap().length(), 3);
}

#[test]
fn trailing_bytes_make_the_container_truncated() {
    let mut bytes = Png::from_chunks(three_chunks()).as_bytes();
    bytes.extend_from_slice(&[0, 0, 0]);
    assert_eq!(Png::decode(&bytes).unwrap_err(), PngError::Chunk(ChunkError::Truncated));
}

#[test]
fn first_match_lookup() {
    let png = Png::from_chunks(vec![chunk("TeSt", "one"), chunk("TeSt", "two")]);
    let found = png.chunk_by_type("TeSt").unwrap();
    assert_eq!(found.data_as_string().unwrap(), "one");
    assert!(png.chunk_by_type("test").is_none());
    assert!(png.chunk_by_type("TeS").is_none());
}

#[test]
fn remove_takes_the_first_match() {
    let mut png = Png::from_chunks(vec![chunk("TeSt", "one"), chunk("miDl", "x"), chunk("TeSt", "two")]);
    let removed = png.remove_chunk("TeSt").unwrap();
    assert_eq!(removed.data_as_string().unwrap(), "one");
    assert_eq!(png.chunks().len(), 2);
    assert_eq!(png.chunks()[0].chunk_type().to_string(), "miDl");
    assert_eq!(png.chunks()[1].data_as_string().unwrap(), "two");
}

#[test]
fn removal_of_missing_chunk_changes_nothing() {
    let mut png = Png::from_chunks(three_chunks());
    let before = png.as_bytes();
    assert_eq!(png.remove_chunk("ZzZz").unwrap_err(), PngError::ChunkNotFound);
    assert_eq!(png.chunks().len(), 3);
    assert_eq!(png.as_bytes(), before);
}

#[test]
fn end_to_end_scenario() {
    let png = Png::from_chunks(three_chunks());
    let bytes = png.as_bytes();
    let expected_len = 8 + (12 + 20) + (12 + 18) + (12 + 19);
    assert_eq!(bytes.len(), expected_len);
    let back = Png::decode(&bytes).unwrap();
    let names: Vec<String> = back.chunks().iter().map(|c| c.chunk_type().to_string()).collect();
    assert_eq!(names, vec!["FrSt", "miDl", "LASt"]);
    for (a, b) in png.chunks().iter().zip(back.chunks().iter()) {
        assert!(same_chunk(a, b));
    }
    assert_eq!(back.chunk_by_type("FrSt").unwrap().data_as_string().unwrap(), "I am the first chunk");
}

#[test]
fn data_as_string_rejects_invalid_utf8() {
    let c = Chunk::new(ChunkType::from_str("TeSt").unwrap(), vec![0xff, 0xfe]);
    assert_eq!(c.data_as_string().unwrap_err(), ChunkError::InvalidEncoding);
    let d = Chunk::new(ChunkType::from_str("TeSt").unwrap(), "héllo".as_bytes().to_vec());
    assert_eq!(d.data_as_string().unwrap(), "héllo");
}

#[test]
fn type_code_bits_and_text() {
    let t = ChunkType::from_bytes([0x41, 0x61, 0x41, 0x61]);
    assert!(t.is_critical());
    assert!(!t.is_public());
    assert!(t.is_reserved_bit_valid());
    assert!(t.is_safe_to_copy());
    assert!(t.is_valid());
    assert_eq!(t.to_string(), "AaAa");
    let raw = ChunkType::from_bytes([49, 50, 51, 52]);
    assert!(!raw.is_valid());
    assert_eq!(raw.to_string(), "1234");
    assert!(raw.has_name("1234"));
    assert!(!raw.has_name("123"));
    assert!(ChunkType::test_fifth_bit_to_0(0x41));
    assert!(!ChunkType::test_fifth_bit_to_0(0x61));
}

#[test]
fn names_must_be_four_ascii_letters() {
    assert!(ChunkType::from_str("RuSt").is_ok());
    assert!(ChunkType::from_str("Ru t").is_err());
    assert!(ChunkType::from_str("Ruéa").is_err());
    assert!(ChunkType::from_str("RuSt ").is_err());
    assert_eq!(ChunkType::from_str("zZaA").unwrap().bytes(), [122, 90, 97, 65]);
}

#[test]
fn file_states() {
    assert_eq!(EncodeArgs::validate_png(&Vec::new()), FileState::Empty);
    assert_eq!(EncodeArgs::validate_png(&header_only()), FileState::Png);
    assert_eq!(EncodeArgs::validate_png(&vec![1, 2, 3]), FileState::Other(PngError::InvalidHeader));
}

#[test]
fn encode_into_input_file() {
    let c = chunk("FrSt", "I am the first chunk");
    let expected_chunk = c.as_bytes();
    let out = EncodeArgs::validate_input(&header_only(), c).unwrap();
    assert_eq!(out, expected_chunk);

    let c = chunk("FrSt", "I am the first chunk");
    let out = EncodeArgs::validate_input(&Vec::new(), c).unwrap();
    let png = Png::decode(&out).unwrap();
    assert_eq!(png.chunks().len(), 1);
    assert_eq!(png.chunk_by_type("FrSt").unwrap().data_as_string().unwrap(), "I am the first chunk");

    let c = chunk("FrSt", "x");
    assert_eq!(EncodeArgs::validate_input(&vec![9], c).unwrap_err(), PngError::InvalidHeader);
}

#[test]
fn encode_into_separate_output() {
    let input = Png::from_chunks(three_chunks()).as_bytes();
    let out = EncodeArgs::validate_input_with_output(&input, &Vec::new(), chunk("TeSt", "new")).unwrap();
    let png = Png::decode(&out).unwrap();
    assert_eq!(png.chunks().len(), 4);
    assert_eq!(png.chunks()[3].data_as_string().unwrap(), "new");
    assert_eq!(&out[..input.len()], &input[..]);

    let out = EncodeArgs::validate_input_with_output(&Vec::new(), &Vec::new(), chunk("TeSt", "new")).unwrap();
    assert_eq!(Png::decode(&out).unwrap().chunks().len(), 1);

    let err = EncodeArgs::validate_input_with_output(&vec![1], &Vec::new(), chunk("TeSt", "new")).unwrap_err();
    assert_eq!(err, PngError::InvalidHeader);
    let err = EncodeArgs::validate_input_with_output(&input, &vec![1], chunk("TeSt", "new")).unwrap_err();
    assert_eq!(err, PngError::InvalidHeader);
}

#[test]
fn decode_message_from_buffer() {
    let bytes = Png::from_chunks(three_chunks()).as_bytes();
    let args = DecodeArgs { file_path: String::from("f.png"), chunk_type: String::from("miDl") };
    assert_eq!(args.decode_buffer(&bytes).unwrap(), "I am another chunk");
    let args = DecodeArgs { file_path: String::from("f.png"), chunk_type: String::from("TeSt") };
    assert_eq!(args.decode_buffer(&bytes).unwrap_err(), PngError::ChunkNotFound);
    assert_eq!(args.decode_buffer(&[1, 2]).unwrap_err(), PngError::InvalidHeader);
}

#[test]
fn remove_from_buffer() {
    let bytes = Png::from_chunks(three_chunks()).as_bytes();
    let args = RemoveArgs { file_path: String::from("f.png"), chunk_type: String::from("FrSt") };
    let (update, removed) = args.remove_from(&bytes);
    assert_eq!(removed.unwrap().data_as_string().unwrap(), "I am the first chunk");
    match update {
        FileUpdate::Write(out) => {
            let png = Png::decode(&out).unwrap();
            assert_eq!(png.chunks().len(), 2);
            assert!(png.chunk_by_type("FrSt").is_none());
        }
        _ => panic!("expected the file to be rewritten"),
    }

    let args = RemoveArgs { file_path: String::from("f.png"), chunk_type: String::from("ZzZz") };
    let (update, removed) = args.remove_from(&bytes);
    assert_eq!(removed.unwrap_err(), PngError::ChunkNotFound);
    assert!(matches!(update, FileUpdate::Keep));

    let single = Png::from_chunks(vec![chunk("FrSt", "x")]).as_bytes();
    let args = RemoveArgs { file_path: String::from("f.png"), chunk_type: String::from("FrSt") };
    let (update, removed) = args.remove_from(&single);
    assert!(removed.is_ok());
    assert!(matches!(update, FileUpdate::Delete));

    let (update, removed) = args.remove_from(&[0, 1]);
    assert_eq!(removed.unwrap_err(), PngError::InvalidHeader);
    assert!(matches!(update, FileUpdate::Keep));
}
