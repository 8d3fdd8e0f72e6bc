use oauth1_sign::overrides::parse_override;

fn pair(key: &str, value: &str) -> Option<(String, String)> {
    Some((key.to_string(), value.to_string()))
}

#[test]
fn key_and_value() {
    assert_eq!(parse_override("count=5"), pair("count", "5"));
}

#[test]
fn split_is_at_the_first_equals_sign() {
    assert_eq!(parse_override("q=a=b"), pair("q", "a=b"));
    assert_eq!(parse_override("q=="), pair("q", "="));
}

#[test]
fn empty_value_is_a_value() {
    assert_eq!(parse_override("q="), pair("q", ""));
}

#[test]
fn empty_key_is_rejected() {
    assert_eq!(parse_override("=v"), None);
    assert_eq!(parse_override("="), None);
    assert_eq!(parse_override("==v"), None);
}

#[test]
fn missing_equals_sign_is_rejected() {
    assert_eq!(parse_override("count"), None);
    assert_eq!(parse_override(""), None);
}

#[test]
fn text_beyond_ascii_is_split_at_the_sign() {
    assert_eq!(parse_override("clé=日本 語"), pair("clé", "日本 語"));
    assert_eq!(parse_override("😀=="), pair("😀", "="));
    assert_eq!(parse_override("日本"), None);
}
