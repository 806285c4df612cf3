use csync_store::hash::{hash_bytes, hash_chunk};

#[test]
fn digest_is_deterministic() {
    let b = b"some bytes to hash".to_vec();
    assert_eq!(hash_bytes(&b), hash_bytes(&b.clone()));
    assert_eq!(hash_chunk(&b), hash_chunk(&b));
}

#[test]
fn different_inputs_give_different_digests() {
    let inputs: Vec<Vec<u8>> = vec![
        Vec::new(),
        b"a".to_vec(),
        b"b".to_vec(),
        b"ab".to_vec(),
        b"ba".to_vec(),
        vec![0u8; 1024],
        vec![1u8; 1024],
    ];
    for i in 0..inputs.len() {
        for j in 0..inputs.len() {
            if i != j {
                assert_ne!(hash_bytes(&inputs[i]), hash_bytes(&inputs[j]));
            }
        }
    }
}

#[test]
fn digest_of_empty_input() {
    assert_eq!(
        hash_chunk(b""),
        "af1349b9f5f9a1a6a0404dea36dcc9499bcb25c9adc112b7cc9a93cae41f3262"
    );
    let d = hash_bytes(b"");
    assert_eq!(d[0], 0xaf);
    assert_eq!(d[31], 0x62);
}

#[test]
fn hash_chunk_is_lowercase_hex_of_digest() {
    let d = hash_bytes(b"hello");
    let s = hash_chunk(b"hello");
    assert_eq!(s.len(), 64);
    let expected: String = d.iter().map(|b| format!("{:02x}", b)).collect();
    assert_eq!(s, expected);
}
