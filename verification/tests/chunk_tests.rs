use voxelcore::chunk::CHUNK_SIZE;
use voxelcore::{BlockType, Chunk};
use voxelcore::codec::{decode_chunk_payload, encode_chunk_payload};

#[test]
fn new_chunk_is_empty() {
    let chunk = Chunk::default();
    assert!(chunk.is_empty());
}

#[test]
fn new_chunk_is_all_air() {
    let chunk = Chunk::default();
    for x in 0..CHUNK_SIZE {
        for y in 0..CHUNK_SIZE {
            for z in 0..CHUNK_SIZE {
                assert_eq!(chunk.get(x, y, z), BlockType::Air);
            }
        }
    }
}

#[test]
fn set_get_roundtrip() {
    let mut chunk = Chunk::default();
    chunk.set(5, 10, 3, BlockType::Stone);
    assert_eq!(chunk.get(5, 10, 3), BlockType::Stone);

    chunk.set(5, 10, 3, BlockType::Dirt);
    assert_eq!(chunk.get(5, 10, 3), BlockType::Dirt);
}

#[test]
fn set_get_boundary_positions() {
    let mut chunk = Chunk::default();

    chunk.set(0, 0, 0, BlockType::Cobblestone);
    assert_eq!(chunk.get(0, 0, 0), BlockType::Cobblestone);

    chunk.set(15, 15, 15, BlockType::DiamondOre);
    assert_eq!(chunk.get(15, 15, 15), BlockType::DiamondOre);
}

#[test]
fn chunk_not_empty_after_set() {
    let mut chunk = Chunk::default();
    chunk.set(0, 0, 0, BlockType::Stone);
    assert!(!chunk.is_empty());
}

#[test]
fn chunk_empty_after_clearing() {
    let mut chunk = Chunk::default();
    chunk.set(8, 8, 8, BlockType::Stone);
    assert!(!chunk.is_empty());
    chunk.set(8, 8, 8, BlockType::Air);
    assert!(chunk.is_empty());
}

#[test]
fn index_yzx_ordering() {
    assert_eq!(Chunk::index(0, 0, 0), 0);
    assert_eq!(Chunk::index(1, 0, 0), 1);
    assert_eq!(Chunk::index(0, 0, 1), CHUNK_SIZE);
    assert_eq!(Chunk::index(0, 1, 0), CHUNK_SIZE * CHUNK_SIZE);
}

#[test]
fn different_positions_independent() {
    let mut chunk = Chunk::default();
    chunk.set(0, 0, 0, BlockType::Stone);
    chunk.set(1, 0, 0, BlockType::Dirt);
    chunk.set(0, 1, 0, BlockType::Sand);
    assert_eq!(chunk.get(0, 0, 0), BlockType::Stone);
    assert_eq!(chunk.get(1, 0, 0), BlockType::Dirt);
    assert_eq!(chunk.get(0, 1, 0), BlockType::Sand);
    assert_eq!(chunk.get(0, 0, 1), BlockType::Air);
}

#[test]
fn serialize_deserialize_restores_every_cell() {
    let mut chunk = Chunk::default();
    chunk.set(0, 0, 0, BlockType::Bedrock);
    chunk.set(3, 5, 3, BlockType::Torch);
    chunk.set(15, 15, 15, BlockType::Water);
    chunk.set(7, 9, 11, BlockType::GoldOre);
    let bytes = chunk.serialize();
    assert_eq!(bytes.len(), 4096);
    let back = Chunk::deserialize(&bytes).expect("a 4096-byte buffer must deserialize");
    for x in 0..CHUNK_SIZE {
        for y in 0..CHUNK_SIZE {
            for z in 0..CHUNK_SIZE {
                assert_eq!(back.get(x, y, z), chunk.get(x, y, z));
            }
        }
    }
}

#[test]
fn deserialize_rejects_wrong_length() {
    assert!(Chunk::deserialize(&[0u8; 100]).is_none());
    assert!(Chunk::deserialize(&[0u8; 4095]).is_none());
    assert!(Chunk::deserialize(&[]).is_none());
}

#[test]
fn deserialize_unknown_ids_degrade_to_air() {
    let mut bytes = vec![0u8; 4096];
    bytes[0] = 200;
    bytes[1] = 1;
    let back = Chunk::deserialize(&bytes).unwrap();
    assert_eq!(back.get(0, 0, 0), BlockType::Air);
    assert_eq!(back.get(1, 0, 0), BlockType::Stone);
}

#[test]
fn persisted_payload_roundtrip() {
    let mut chunk = Chunk::default();
    chunk.set(1, 2, 3, BlockType::Sandstone);
    chunk.set(9, 0, 9, BlockType::Clay);
    let payload = encode_chunk_payload(&chunk);
    let back = decode_chunk_payload(&payload).expect("an encoded payload must decode");
    for x in 0..CHUNK_SIZE {
        for y in 0..CHUNK_SIZE {
            for z in 0..CHUNK_SIZE {
                assert_eq!(back.get(x, y, z), chunk.get(x, y, z));
            }
        }
    }
}

#[test]
fn corrupt_payload_decodes_to_none() {
    assert!(decode_chunk_payload(&vec![1u8, 2, 3, 4]).is_none());
    let chunk = Chunk::default();
    let mut payload = encode_chunk_payload(&chunk);
    let n = payload.len();
    payload.truncate(n / 2);
    assert!(decode_chunk_payload(&payload).is_none());
}
