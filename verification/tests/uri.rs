use game_tokens::uri::{build_uri, decimal_text};

#[test]
fn decimal_text_is_the_usual_notation() {
    for n in [0u64, 1, 9, 10, 11, 99, 100, 101, 1_000, 65_535, 4_000_000_000, u64::MAX - 1, u64::MAX] {
        assert_eq!(decimal_text(n), format!("{}", n));
    }
    assert_eq!(decimal_text(0), "0");
    assert_eq!(decimal_text(7), "7");
    assert_eq!(decimal_text(1234567890), "1234567890");
}

#[test]
fn build_uri_keeps_the_base_as_it_is() {
    assert_eq!(build_uri("ipfs://x/", 5), "ipfs://x/5.json");
    assert_eq!(build_uri("päth/", 12), "päth/12.json");
    assert_eq!(build_uri("", 0), "0.json");
}
