use okx_pa_agent::digest::{content_hash, sha256_hex_prefix_of};
use okx_pa_agent::execution::signal_id_of;

#[test]
fn content_hash_is_the_sha256_prefix() {
    assert_eq!(content_hash("abc"), "ba7816bf8f01cfea");
    assert_eq!(content_hash("策略协议"), "98fa6807bb095f12");
    assert_eq!(sha256_hex_prefix_of(b"abc", 64), "ba7816bf8f01cfea414140de5dae2223b00361a396177a9cb410ff61f20015ad");
}

#[test]
fn signal_ids_take_twenty_four_hex_digits() {
    assert_eq!(signal_id_of("abc"), "ba7816bf8f01cfea414140de");
    assert_ne!(signal_id_of("abc"), signal_id_of("abd"));
}
