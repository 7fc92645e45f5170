use iff::chunkid::ChunkIdError;
use iff::{Chunk, ChunkId};

const NULL: &'static [u8] = &[0; 0];

#[test]
fn space_for_data_is_allocated() {
    let data = [0; 4];
    let chunk = Chunk::new(ChunkId::from_str("data").unwrap(), 4, &data).unwrap();
    assert!(chunk.len() == 4)
}

#[test]
fn not_enough_data() {
    let data = [0; 4];
    let chunk = Chunk::new(ChunkId::from_str("data").unwrap(), 8, &data);
    assert!(chunk.is_none())
}

#[test]
fn chunk_is_displayed_correct() {
    let chunk = Chunk::new(ChunkId::from_str("data").unwrap(), 0, NULL).unwrap();
    assert!(chunk.to_string() == r#"Chunk "data". Size 0 bytes"#)
}

#[test]
fn chunk_id_is_unprintable() {
    let id = ChunkId::new(&[0, 1, 2, 3][0..]);
    assert!(id.unwrap_err() == ChunkIdError::UnsupportedChar)
}

#[test]
fn short_input_for_chunk_id() {
    let id = ChunkId::new("abc".as_bytes());
    assert!(id.unwrap_err() == ChunkIdError::ShortLength)
}

#[test]
fn chunk_id_cannot_have_inner_space() {
    assert!(ChunkId::new(" abc".as_bytes()).unwrap_err() == ChunkIdError::SpacePrecedeLetter);
    assert!(ChunkId::new("a bc".as_bytes()).unwrap_err() == ChunkIdError::SpacePrecedeLetter);
    assert!(ChunkId::new("ab c".as_bytes()).unwrap_err() == ChunkIdError::SpacePrecedeLetter);
    assert!(ChunkId::new("  ab".as_bytes()).unwrap_err() == ChunkIdError::SpacePrecedeLetter);
    assert!(ChunkId::new("a  b".as_bytes()).unwrap_err() == ChunkIdError::SpacePrecedeLetter);
    assert!(ChunkId::new("   a".as_bytes()).unwrap_err() == ChunkIdError::SpacePrecedeLetter)
}

#[test]
fn chunk_id_can_have_trailing_spaces() {
    assert!(ChunkId::new("abc ".as_bytes()).is_ok())
}

#[test]
fn long_input_for_chunk() {
    let id = ChunkId::new("abcde".as_bytes()).unwrap();
    assert!(id.to_str() == "abcd")
}

#[test]
fn reserved_chunks() {
    assert!(!ChunkId::from_str("FOR0").unwrap().is_reserved());
    assert!(ChunkId::from_str("FORM").unwrap().is_reserved());
    assert!(ChunkId::from_str("    ").unwrap().is_reserved())
}
