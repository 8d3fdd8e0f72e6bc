use oauth1_sign::order::{sort_texts, text_precedes};
use oauth1_sign::text::same_text;

fn owned(items: &[&str]) -> Vec<String> {
    items.iter().map(|s| s.to_string()).collect()
}

#[test]
fn prefix_comes_first() {
    assert!(text_precedes("oauth_signature", "oauth_signature_method"));
    assert!(!text_precedes("oauth_signature_method", "oauth_signature"));
    assert!(text_precedes("", "a"));
    assert!(!text_precedes("a", ""));
}

#[test]
fn equal_texts_precede_each_other() {
    assert!(text_precedes("abc", "abc"));
    assert!(text_precedes("", ""));
}

#[test]
fn order_is_by_byte_not_by_letter() {
    assert!(text_precedes("Z", "a"));
    assert!(!text_precedes("a", "Z"));
    assert!(text_precedes("a%20b", "a-b"));
    assert!(text_precedes("a=1", "a_b=0"));
    assert!(text_precedes("z", "é"));
}

#[test]
fn sorting_orders_and_keeps_every_text() {
    let sorted = sort_texts(owned(&["q=a", "oauth_nonce=1", "a=2", "a=10", "Z=0", "a=2"]));
    assert_eq!(sorted, owned(&["Z=0", "a=10", "a=2", "a=2", "oauth_nonce=1", "q=a"]));
}

#[test]
fn sorting_nothing_and_one() {
    assert_eq!(sort_texts(Vec::new()), Vec::<String>::new());
    assert_eq!(sort_texts(owned(&["x"])), owned(&["x"]));
}

#[test]
fn sorting_agrees_with_std() {
    let mut items = owned(&[
        "b=2", "a=1", "c=3", "a%20b=1", "a=", "", "oauth_token=t", "oauth_timestamp=1", "é=1",
        "~=1", "A=1", "0=1",
    ]);
    let sorted = sort_texts(items.clone());
    items.sort();
    assert_eq!(sorted, items);
}

#[test]
fn same_text_compares_whole_texts() {
    assert!(same_text("", ""));
    assert!(same_text("oauth_token", "oauth_token"));
    assert!(same_text("clé", "clé"));
    assert!(!same_text("oauth_token", "oauth_tokens"));
    assert!(!same_text("a", "b"));
    assert!(!same_text("é", "e"));
    assert!(!same_text("", "a"));
}
