use oauth1_sign::percent::{is_unreserved, percent_encode, upper_hex};
use percent_encoding::{percent_decode_str, utf8_percent_encode, AsciiSet, NON_ALPHANUMERIC};

const ESCAPED: &AsciiSet = &NON_ALPHANUMERIC.remove(b'-').remove(b'.').remove(b'_').remove(b'~');

fn allowed(c: char) -> bool {
    c.is_ascii_alphanumeric() || c == '-' || c == '.' || c == '_' || c == '~' || c == '%'
}

#[test]
fn unreserved_characters_stay() {
    let text = "ABCDEFGHIJKLMNOPQRSTUVWXYZabcdefghijklmnopqrstuvwxyz0123456789-._~";
    assert_eq!(percent_encode(text), text);
}

#[test]
fn empty_text_stays_empty() {
    assert_eq!(percent_encode(""), "");
}

#[test]
fn space_becomes_percent_20() {
    assert_eq!(percent_encode("a b"), "a%20b");
}

#[test]
fn percent_sign_is_escaped() {
    assert_eq!(percent_encode("100%"), "100%25");
    assert_eq!(percent_encode("a%20b"), "a%2520b");
}

#[test]
fn characters_legal_in_urls_are_escaped() {
    assert_eq!(
        percent_encode("/:;=@[\\]^|$%&+,?#<>\"`{}"),
        "%2F%3A%3B%3D%40%5B%5C%5D%5E%7C%24%25%26%2B%2C%3F%23%3C%3E%22%60%7B%7D"
    );
}

#[test]
fn sub_delimiters_are_escaped() {
    assert_eq!(percent_encode("!*'()"), "%21%2A%27%28%29");
}

#[test]
fn hexadecimal_digits_are_upper_case() {
    assert_eq!(percent_encode("\u{7f}"), "%7F");
    assert_eq!(percent_encode("\n"), "%0A");
    assert_eq!(percent_encode("\u{0}"), "%00");
    assert_eq!(percent_encode("\u{ff}"), "%C3%BF");
}

#[test]
fn text_is_encoded_by_its_utf8_bytes() {
    assert_eq!(percent_encode("é"), "%C3%A9");
    assert_eq!(percent_encode("日本"), "%E6%97%A5%E6%9C%AC");
    assert_eq!(percent_encode("😀"), "%F0%9F%98%80");
}

#[test]
fn url_is_encoded_as_a_whole() {
    assert_eq!(
        percent_encode("https://api.twitter.com/1.1/test.json"),
        "https%3A%2F%2Fapi.twitter.com%2F1.1%2Ftest.json"
    );
}

#[test]
fn unreserved_bytes_are_exactly_the_sixty_six() {
    let mut count = 0;
    for b in 0u8..=255 {
        let expected = b.is_ascii_alphanumeric() || b == b'-' || b == b'.' || b == b'_' || b == b'~';
        assert_eq!(is_unreserved(b), expected);
        if is_unreserved(b) {
            count += 1;
        }
    }
    assert_eq!(count, 66);
}

#[test]
fn upper_hex_digits() {
    let digits: Vec<char> = (0u8..16).map(upper_hex).collect();
    let text: String = digits.into_iter().collect();
    assert_eq!(text, "0123456789ABCDEF");
}

#[test]
fn output_alphabet_and_round_trip() {
    let samples = [
        "",
        "plain",
        "a b",
        "k=v&x=y",
        "100% sure?",
        "-._~",
        "\u{0}\u{1}\u{7f}",
        "naïve café",
        "日本語のテキスト",
        "😀 mixed ASCII and emoji 🚀",
        "%41%zz%",
    ];
    for sample in samples {
        let encoded = percent_encode(sample);
        assert!(encoded.chars().all(allowed));
        let decoded = percent_decode_str(&encoded).collect::<Vec<u8>>();
        assert_eq!(decoded, sample.as_bytes());
        assert_eq!(String::from_utf8(decoded).unwrap(), sample);
    }
}

#[test]
fn every_single_byte_character_round_trips() {
    for code in 0u32..0x800 {
        let c = char::from_u32(code).unwrap();
        let sample = c.to_string();
        let encoded = percent_encode(&sample);
        assert!(encoded.chars().all(allowed));
        let decoded = percent_decode_str(&encoded).collect::<Vec<u8>>();
        assert_eq!(decoded, sample.as_bytes());
    }
}

#[test]
fn agrees_with_the_percent_encoding_crate_on_the_same_set() {
    let samples = ["a b", "/:;=@", "é日本", "x&y=z", "~tilde_under-score.dot", "\"quoted\" {braces}"];
    for sample in samples {
        assert_eq!(percent_encode(sample), utf8_percent_encode(sample, ESCAPED).to_string());
    }
}
