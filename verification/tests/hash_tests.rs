use exeviewer::hash::file_hash_hex;

#[test]
fn digest_of_empty_input() {
    let data: Vec<u8> = Vec::new();
    assert_eq!(
        file_hash_hex(&data),
        "E3B0C44298FC1C149AFBF4C8996FB92427AE41E4649B934CA495991B7852B855"
    );
}

#[test]
fn digest_of_known_input() {
    let data = b"abc".to_vec();
    assert_eq!(
        file_hash_hex(&data),
        "BA7816BF8F01CFEA414140DE5DAE2223B00361A396177A9CB410FF61F20015AD"
    );
}

#[test]
fn digest_depends_on_the_bytes() {
    let a = file_hash_hex(&b"abc".to_vec());
    let b = file_hash_hex(&b"abd".to_vec());
    assert_ne!(a, b);
    assert_eq!(a.len(), 64);
    assert_eq!(b.len(), 64);
}
