use pngme::Chunk;
use pngme::ChunkError;
use pngme::ChunkType;

fn testing_chunk() -> Chunk {
    let data_length: u32 = 42;
    let chunk_type = "RuSt".as_bytes();
    let message_bytes = "This is where your secret message will be!".as_bytes();
    let crc: u32 = 2882656334;

    let chunk_data: Vec<u8> = data_length
        .to_be_bytes()
        .iter()
        .chain(chunk_type.iter())
        .chain(message_bytes.iter())
        .chain(crc.to_be_bytes().iter())
        .copied()
        .collect();

    Chunk::parse(chunk_data.as_ref()).unwrap()
}

#[test]
fn test_new_chunk() {
    let chunk_type = ChunkType::from_str("RuSt").unwrap();
    let data = "This is where your secret message will be!"
        .as_bytes()
        .to_vec();
    let chunk = Chunk::new(chunk_type, data);
    assert_eq!(chunk.length(), 42);
    assert_eq!(chunk.crc(), 2882656334);
}

#[test]
fn test_chunk_length() {
    let chunk = testing_chunk();
    assert_eq!(chunk.length(), 42);
}

#[test]
fn test_chunk_type() {
    let chunk = testing_chunk();
    assert_eq!(
        chunk.chunk_type().to_display_string().unwrap(),
        String::from("RuSt")
    );
}

#[test]
fn test_chunk_string() {
    let chunk = testing_chunk();
    let chunk_string = chunk.data_as_string().unwrap();
    let expected_chunk_string = String::from("This is where your secret message will be!");
    assert_eq!(chunk_string, expected_chunk_string);
}

#[test]
fn test_chunk_crc() {
    let chunk = testing_chunk();
    assert_eq!(chunk.crc(), 2882656334);
}

#[test]
fn test_valid_chunk_from_bytes() {
    let data_length: u32 = 42;
    let chunk_type = "RuSt".as_bytes();
    let message_bytes = "This is where your secret message will be!".as_bytes();
    let crc: u32 = 2882656334;

    let chunk_data: Vec<u8> = data_length
        .to_be_bytes()
        .iter()
        .chain(chunk_type.iter())
        .chain(message_bytes.iter())
        .chain(crc.to_be_bytes().iter())
        .copied()
        .collect();

    let chunk = Chunk::parse(chunk_data.as_ref()).unwrap();

    let chunk_string = chunk.data_as_string().unwrap();
    let expected_chunk_string = String::from("This is where your secret message will be!");

    assert_eq!(chunk.length(), 42);
    assert_eq!(
        chunk.chunk_type().to_display_string().unwrap(),
        String::from("RuSt")
    );
    assert_eq!(chunk_string, expected_chunk_string);
    assert_eq!(chunk.crc(), 2882656334);
}

#[test]
fn test_invalid_chunk_from_bytes() {
    let data_length: u32 = 42;
    let chunk_type = "RuSt".as_bytes();
    let message_bytes = "This is where your secret message will be!".as_bytes();
    let crc: u32 = 2882656333;

    let chunk_data: Vec<u8> = data_length
        .to_be_bytes()
        .iter()
        .chain(chunk_type.iter())
        .chain(message_bytes.iter())
        .chain(crc.to_be_bytes().iter())
        .copied()
        .collect();

    let chunk = Chunk::parse(chunk_data.as_ref());

    assert!(chunk.is_err());
}

#[test]
pub fn test_chunk_trait_impls() {
    let data_length: u32 = 42;
    let chunk_type = "RuSt".as_bytes();
    let message_bytes = "This is where your secret message will be!".as_bytes();
    let crc: u32 = 2882656334;

    let chunk_data: Vec<u8> = data_length
        .to_be_bytes()
        .iter()
        .chain(chunk_type.iter())
        .chain(message_bytes.iter())
        .chain(crc.to_be_bytes().iter())
        .copied()
        .collect();

    let chunk: Chunk = Chunk::parse(chunk_data.as_ref()).unwrap();

    let _chunk_string = format!("{:?}", chunk);
}

#[test]
fn test_chunk_round_trip() {
    let chunk = testing_chunk();
    let bytes = chunk.as_bytes();
    let reparsed = Chunk::parse(bytes.as_ref()).unwrap();
    assert_eq!(reparsed.as_bytes(), bytes);
    assert_eq!(reparsed.length(), 42);
    assert_eq!(reparsed.crc(), 2882656334);
}

#[test]
fn test_chunk_too_short() {
    assert!(matches!(Chunk::parse(&[0u8; 11]), Err(ChunkError::TooShort)));
    assert!(matches!(Chunk::parse(&[]), Err(ChunkError::TooShort)));
}

#[test]
fn test_chunk_crc_sensitivity() {
    // Flipping any single bit in the type or the payload changes the
    // CRC, so reparsing reports the mismatch.
    let good = testing_chunk().as_bytes();
    for byte_index in 4..good.len() - 4 {
        let mut corrupted = good.clone();
        corrupted[byte_index] ^= 0x01;
        assert!(matches!(
            Chunk::parse(corrupted.as_ref()),
            Err(ChunkError::CrcMismatch)
        ));
    }
}

#[test]
fn test_chunk_data_not_utf8() {
    let chunk_type = ChunkType::from_str("teSt").unwrap();
    let chunk = Chunk::new(chunk_type, vec![0xff, 0xfe, 0x00]);
    assert_eq!(chunk.data_as_string(), Err(ChunkError::EncodingError));
}

#[test]
fn test_chunk_empty_payload() {
    let chunk_type = ChunkType::from_str("teSt").unwrap();
    let chunk = Chunk::new(chunk_type, Vec::new());
    assert_eq!(chunk.length(), 0);
    assert_eq!(chunk.as_bytes().len(), 12);
    assert_eq!(chunk.data_as_string().unwrap(), String::new());
    let reparsed = Chunk::parse(chunk.as_bytes().as_ref()).unwrap();
    assert_eq!(reparsed.crc(), chunk.crc());
}
