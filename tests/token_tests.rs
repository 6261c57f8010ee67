use block_executor::v2_token_utils::{
    is_resource_supported, truncate_str, AptosCollection, Collection, ResourceReference, Token, TokenStandard,
    NAME_LENGTH, URI_LENGTH,
};

fn collection(name: &str, uri: &str) -> Collection {
    Collection::new("0xcafe".to_string(), "desc".to_string(), name.to_string(), uri.to_string())
}

fn token(name: &str, uri: &str) -> Token {
    Token::new(
        ResourceReference { inner: "0xbeef".to_string() },
        "desc".to_string(),
        name.to_string(),
        uri.to_string(),
    )
}

#[test]
fn truncate_keeps_short_strings() {
    assert_eq!(truncate_str("abc", 5), "abc");
    assert_eq!(truncate_str("abc", 3), "abc");
    assert_eq!(truncate_str("", 3), "");
}

#[test]
fn truncate_cuts_long_strings() {
    assert_eq!(truncate_str("abcdef", 4), "abcd");
    assert_eq!(truncate_str("abcdef", 0), "");
}

#[test]
fn truncate_never_splits_a_character() {
    // 'é' takes two bytes: cutting after three bytes would split it
    assert_eq!(truncate_str("abé", 3), "ab");
    assert_eq!(truncate_str("abé", 4), "abé");
}

#[test]
fn collection_getters_truncate() {
    let long_name = "n".repeat(NAME_LENGTH + 10);
    let long_uri = "u".repeat(URI_LENGTH + 1);
    let c = collection(&long_name, &long_uri);
    assert_eq!(c.get_name_trunc(), "n".repeat(NAME_LENGTH));
    assert_eq!(c.get_uri_trunc(), "u".repeat(URI_LENGTH));
    let short = collection("name", "https://x");
    assert_eq!(short.get_name_trunc(), "name");
    assert_eq!(short.get_uri_trunc(), "https://x");
    assert_eq!(short.creator, "0xcafe");
}

#[test]
fn token_getters_truncate() {
    let t = token(&"t".repeat(NAME_LENGTH + 1), "ipfs://a");
    assert_eq!(t.get_name_trunc(), "t".repeat(NAME_LENGTH));
    assert_eq!(t.get_uri_trunc(), "ipfs://a");
    assert_eq!(t.collection.inner, "0xbeef");
}

#[test]
fn token_standard_names() {
    assert_eq!(TokenStandard::V1.to_string_value(), "v1");
    assert_eq!(TokenStandard::V2.to_string_value(), "v2");
}

#[test]
fn aptos_collection_flags() {
    let a = AptosCollection { mutable_description: true, mutable_uri: false };
    assert!(a.mutable_description);
    assert!(!a.mutable_uri);
}

#[test]
fn supported_resource_types() {
    assert!(is_resource_supported("0x1::object::ObjectCore"));
    assert!(is_resource_supported("0x4::token::Token"));
    assert!(is_resource_supported("0x1::fungible_asset::FungibleStore"));
    assert!(!is_resource_supported("0x4::token::Tokens"));
    assert!(!is_resource_supported("0x3::token::Token"));
    assert!(!is_resource_supported(""));
}
