use pngme::ChunkType;

#[test]
pub fn test_chunk_type_from_bytes() {
    let expected = [82, 117, 83, 116];
    let actual = ChunkType::from_bytes([82, 117, 83, 116]);

    assert_eq!(expected, actual.bytes());
}

#[test]
pub fn test_chunk_type_from_str() {
    let expected = ChunkType::from_bytes([82, 117, 83, 116]);
    let actual = ChunkType::from_str("RuSt").unwrap();
    assert_eq!(expected, actual);
}

#[test]
pub fn test_chunk_type_is_critical() {
    let chunk = ChunkType::from_str("RuSt").unwrap();
    assert!(chunk.is_critical());
}

#[test]
pub fn test_chunk_type_is_not_critical() {
    let chunk = ChunkType::from_str("ruSt").unwrap();
    assert!(!chunk.is_critical());
}

#[test]
pub fn test_chunk_type_is_public() {
    let chunk = ChunkType::from_str("RUSt").unwrap();
    assert!(chunk.is_public());
}

#[test]
pub fn test_chunk_type_is_not_public() {
    let chunk = ChunkType::from_str("RuSt").unwrap();
    assert!(!chunk.is_public());
}

#[test]
pub fn test_chunk_type_is_reserved_bit_valid() {
    let chunk = ChunkType::from_str("RuSt").unwrap();
    assert!(chunk.is_reserved_bit_valid());
}

#[test]
pub fn test_chunk_type_is_reserved_bit_invalid() {
    let chunk = ChunkType::from_str("Rust").unwrap();
    assert!(!chunk.is_reserved_bit_valid());
}

#[test]
pub fn test_chunk_type_is_safe_to_copy() {
    let chunk = ChunkType::from_str("RuSt").unwrap();
    assert!(chunk.is_safe_to_copy());
}

#[test]
pub fn test_chunk_type_is_unsafe_to_copy() {
    let chunk = ChunkType::from_str("RuST").unwrap();
    assert!(!chunk.is_safe_to_copy());
}

#[test]
pub fn test_valid_chunk_is_valid() {
    let chunk = ChunkType::from_str("RuSt").unwrap();
    assert!(chunk.is_valid());
}

#[test]
pub fn test_invalid_chunk_is_valid() {
    let chunk = ChunkType::from_str("Rust").unwrap();
    assert!(!chunk.is_valid());

    let chunk = ChunkType::from_str("Ru1t").unwrap();
    assert!(chunk.is_err());
}

#[test]
pub fn test_chunk_type_string() {
    let chunk = ChunkType::from_str("RuSt").unwrap();
    assert_eq!(&chunk.to_display_string().unwrap(), "RuSt");
}

#[test]
pub fn test_chunk_type_trait_impls() {
    let chunk_type_1: ChunkType = ChunkType::from_bytes([82, 117, 83, 116]);
    let chunk_type_2: ChunkType = ChunkType::from_str("RuSt").unwrap();
    let _chunk_string = format!("{:?}", chunk_type_1);
    let _are_chunks_equal = chunk_type_1 == chunk_type_2;
}

#[test]
pub fn test_invalid_type_string_rejected() {
    assert_eq!(
        ChunkType::from_str("abc"),
        Err(pngme::ChunkError::InvalidTypeString)
    );
    assert_eq!(
        ChunkType::from_str("abcde"),
        Err(pngme::ChunkError::InvalidTypeString)
    );
    // Four characters, but one of them is not a single byte.
    assert_eq!(
        ChunkType::from_str("ab\u{e9}d"),
        Err(pngme::ChunkError::InvalidTypeString)
    );
    assert_eq!(ChunkType::from_str(""), Err(pngme::ChunkError::InvalidTypeString));
}

#[test]
pub fn test_invalid_type_gates_all_predicates() {
    // An invalid type answers false to every case-derived predicate.
    let chunk = ChunkType::from_str("Rust").unwrap();
    assert!(!chunk.is_valid());
    assert!(!chunk.is_critical());
    assert!(!chunk.is_public());
    assert!(!chunk.is_reserved_bit_valid());
    assert!(!chunk.is_safe_to_copy());
}

#[test]
pub fn test_display_string_of_non_utf8_type() {
    let chunk = ChunkType::from_bytes([0xff, 0xfe, 0x80, 0x81]);
    assert_eq!(
        chunk.to_display_string(),
        Err(pngme::ChunkError::EncodingError)
    );
}
