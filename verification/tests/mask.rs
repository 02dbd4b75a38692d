use okx_pa_agent::mask::{mask_secret, redact_secrets, replace_str};

#[test]
fn test_mask_secret() {
    assert_eq!(mask_secret(""), "");
    assert_eq!(mask_secret("123"), "***");
    assert_eq!(mask_secret("12345678"), "123***678");
}

#[test]
fn test_redact_secrets_plain_and_encoded() {
    let msg = "Authorization: Bearer abc123secret and q=abc123secret and e=abc123secret%21";
    let out = redact_secrets(msg, &["abc123secret!", "abc123secret"]);
    assert!(!out.contains("abc123secret"));
    assert!(out.contains("[redacted]"));
}

#[test]
fn masking_trims_and_keeps_three_bytes_each_side() {
    assert_eq!(mask_secret("   "), "");
    assert_eq!(mask_secret(" abcdef "), "***");
    assert_eq!(mask_secret(" abcdefg "), "abc***efg");
    assert_eq!(mask_secret("key-1234567890-end"), "key***end");
}

#[test]
fn encoded_secret_is_redacted_too() {
    let out = redact_secrets("token=a%2Bb and a+b", &["a+b"]);
    assert_eq!(out, "token=[redacted] and [redacted]");
}

#[test]
fn blank_secrets_are_ignored() {
    assert_eq!(redact_secrets("nothing to hide", &["", "  "]), "nothing to hide");
}

#[test]
fn replacement_is_left_to_right_without_overlap() {
    assert_eq!(replace_str("aaaa", "aa", "b"), "bb");
    assert_eq!(replace_str("abcabc", "bc", "X"), "aXaX");
    assert_eq!(replace_str("abc", "zz", "X"), "abc");
}
