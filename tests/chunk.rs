use csync_store::chunk::{chunk_and_hash, split_blocks, Chunk, Chunker, CHUNK_SIZE};
use csync_store::hash::hash_bytes;

fn sample(len: usize) -> Vec<u8> {
    (0..len).map(|i| (i % 251) as u8).collect()
}

#[test]
fn chunk_has_hash() {
    let chunk = Chunk {
        hash: [0; 32],
        data: Vec::new(),
    };
    assert_eq!(chunk.hash, [0; 32])
}

#[test]
fn split_empty_gives_no_block() {
    assert!(split_blocks(&[], CHUNK_SIZE).is_empty());
}

#[test]
fn split_exact_block_gives_one_full_block() {
    let data = sample(CHUNK_SIZE);
    let blocks = split_blocks(&data, CHUNK_SIZE);
    assert_eq!(blocks.len(), 1);
    assert_eq!(blocks[0], data);
}

#[test]
fn split_one_byte_over_gives_two_blocks() {
    let data = sample(CHUNK_SIZE + 1);
    let blocks = split_blocks(&data, CHUNK_SIZE);
    assert_eq!(blocks.len(), 2);
    assert_eq!(blocks[0].len(), CHUNK_SIZE);
    assert_eq!(blocks[1].len(), 1);
    assert_eq!(blocks[1][0], data[CHUNK_SIZE]);
}

#[test]
fn split_concatenation_reproduces_input() {
    let data = sample(10);
    let blocks = split_blocks(&data, 3);
    let sizes: Vec<usize> = blocks.iter().map(|b| b.len()).collect();
    assert_eq!(sizes, vec![3, 3, 3, 1]);
    assert_eq!(blocks.concat(), data);
}

#[test]
fn chunk_and_hash_two_and_a_half_blocks() {
    let data = sample(CHUNK_SIZE * 5 / 2);
    let hashes = chunk_and_hash(&data);
    assert_eq!(hashes.len(), 3);
    assert_eq!(hashes[0], hash_bytes(&data[..CHUNK_SIZE]));
    assert_eq!(hashes[1], hash_bytes(&data[CHUNK_SIZE..2 * CHUNK_SIZE]));
    assert_eq!(hashes[2], hash_bytes(&data[2 * CHUNK_SIZE..]));
    assert_eq!(data.len() - 2 * CHUNK_SIZE, CHUNK_SIZE / 2);
}

#[test]
fn chunk_and_hash_empty() {
    assert!(chunk_and_hash(&[]).is_empty());
}

#[test]
fn chunk_from_data_is_bound() {
    let chunk = Chunk::from_data(b"abc".to_vec());
    assert_eq!(chunk.hash, hash_bytes(b"abc"));
    assert!(chunk.verify());
}

#[test]
fn chunk_verify_detects_mismatch() {
    let chunk = Chunk {
        hash: hash_bytes(b"abc"),
        data: b"abd".to_vec(),
    };
    assert!(!chunk.verify());
}

#[test]
fn chunker_cuts_pieces_of_any_size_into_full_blocks() {
    let data = sample(23);
    let mut chunker = Chunker::new(5);
    let mut blocks = Vec::new();
    for piece in [&data[0..2], &data[2..3], &data[3..14], &data[14..14], &data[14..23]] {
        blocks.extend(chunker.feed(piece));
    }
    assert!(blocks.iter().all(|b| b.len() == 5));
    let last = chunker.finish().unwrap();
    assert_eq!(last.len(), 3);
    blocks.push(last);
    assert_eq!(blocks, split_blocks(&data, 5));
}

#[test]
fn chunker_on_empty_stream_gives_nothing() {
    let mut chunker = Chunker::new(4);
    assert!(chunker.feed(&[]).is_empty());
    assert!(chunker.finish().is_none());
}

#[test]
fn chunker_exact_multiple_leaves_nothing_pending() {
    let data = sample(8);
    let mut chunker = Chunker::new(4);
    let blocks = chunker.feed(&data);
    assert_eq!(blocks, vec![data[..4].to_vec(), data[4..].to_vec()]);
    assert!(chunker.finish().is_none());
}
