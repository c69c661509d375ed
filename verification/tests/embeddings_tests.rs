use telemetry::embeddings::compute_tool_embedding;

#[test]
fn embedding_is_deterministic() {
    let (a, dim_a) = compute_tool_embedding("shell");
    let (b, dim_b) = compute_tool_embedding("shell");
    assert_eq!(a, b);
    assert_eq!(dim_a, dim_b);
    assert_eq!(dim_a, 32);
}

#[test]
fn different_tools_produce_different_embeddings() {
    let (a, _) = compute_tool_embedding("shell");
    let (b, _) = compute_tool_embedding("file_read");
    assert_ne!(a, b);
}

#[test]
fn embedding_has_correct_length() {
    let (bytes, dim) = compute_tool_embedding("memory_store");
    assert_eq!(bytes.len(), 32);
    assert_eq!(dim, 32);
}

#[test]
fn embedding_is_the_sha256_digest() {
    // SHA-256 of the empty string is the fixed, well-known digest; the
    // embedding of "" must be exactly its bytes, so a pass-through stub
    // could not satisfy this.
    let (bytes, _) = compute_tool_embedding("");
    let expected: [u8; 32] = [
        0xe3, 0xb0, 0xc4, 0x42, 0x98, 0xfc, 0x1c, 0x14, 0x9a, 0xfb, 0xf4, 0xc8, 0x99, 0x6f,
        0xb9, 0x24, 0x27, 0xae, 0x41, 0xe4, 0x64, 0x9b, 0x93, 0x4c, 0xa4, 0x95, 0x99, 0x1b,
        0x78, 0x52, 0xb8, 0x55,
    ];
    assert_eq!(bytes.as_slice(), expected.as_slice());
}
