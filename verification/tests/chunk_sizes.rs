use iff::{Chunk, ChunkId};

fn id(text: &str) -> ChunkId {
    ChunkId::from_str(text).unwrap()
}

#[test]
fn size_up_to_the_length_of_the_data() {
    let data = [7u8; 10];
    for size in 0..=10 {
        let chunk = Chunk::new(id("data"), size, &data).unwrap();
        assert_eq!(chunk.len(), size);
    }
    assert!(Chunk::new(id("data"), 11, &data).is_none());
    assert!(Chunk::new(id("data"), i32::MAX, &data).is_none());
}

#[test]
fn empty_data_takes_size_zero_only() {
    assert_eq!(Chunk::new(id("data"), 0, &[]).unwrap().len(), 0);
    assert!(Chunk::new(id("data"), 1, &[]).is_none());
}

#[test]
fn negative_size_gives_no_chunk() {
    let data = [0u8; 4];
    assert!(Chunk::new(id("data"), -1, &data).is_none());
    assert!(Chunk::new(id("data"), i32::MIN, &data).is_none());
    assert!(Chunk::new(id("data"), -1, &[]).is_none());
}

#[test]
fn len_is_the_declared_size_not_the_length_of_the_data() {
    let data = [0u8; 300];
    assert_eq!(Chunk::new(id("LIST"), 12, &data).unwrap().len(), 12);
}

#[test]
fn rendering_of_sizes() {
    let data = vec![0u8; 1234567];
    let shown = |size: i32| Chunk::new(id("fmt "), size, &data).unwrap().to_string();
    assert_eq!(shown(0), "Chunk \"fmt \". Size 0 bytes");
    assert_eq!(shown(7), "Chunk \"fmt \". Size 7 bytes");
    assert_eq!(shown(9), "Chunk \"fmt \". Size 9 bytes");
    assert_eq!(shown(10), "Chunk \"fmt \". Size 10 bytes");
    assert_eq!(shown(99), "Chunk \"fmt \". Size 99 bytes");
    assert_eq!(shown(100), "Chunk \"fmt \". Size 100 bytes");
    assert_eq!(shown(1005), "Chunk \"fmt \". Size 1005 bytes");
    assert_eq!(shown(1234567), "Chunk \"fmt \". Size 1234567 bytes");
}

#[test]
fn rendering_agrees_with_the_standard_formatting() {
    let data = vec![0u8; 70000];
    for size in (0..=70000).step_by(37) {
        let chunk = Chunk::new(id("WAVE"), size, &data).unwrap();
        assert_eq!(chunk.to_string(), format!("Chunk \"WAVE\". Size {} bytes", size));
    }
}

#[test]
fn rendering_keeps_the_spaces_of_the_identifier() {
    let chunk = Chunk::new(id("    "), 0, &[]).unwrap();
    assert_eq!(chunk.to_string(), "Chunk \"    \". Size 0 bytes");
}

#[test]
fn constructing_twice_gives_the_same_chunk() {
    let data = [1u8, 2, 3, 4];
    let first = Chunk::new(id("data"), 3, &data).unwrap();
    let second = Chunk::new(id("data"), 3, &data).unwrap();
    assert_eq!(first.len(), second.len());
    assert_eq!(first.to_string(), second.to_string());
    assert_eq!(first.to_string(), "Chunk \"data\". Size 3 bytes");
}
