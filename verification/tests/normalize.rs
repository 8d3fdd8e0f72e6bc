use oauth1_sign::error::SignError;
use oauth1_sign::normalize::normalize;
use oauth1_sign::parameters::RequestParameters;
use oauth1_sign::value::{ScalarValue, TemplateValue};

fn text(value: &str) -> TemplateValue {
    TemplateValue::Scalar(ScalarValue::Text(value.to_string()))
}

fn entry(key: &str, value: TemplateValue) -> (String, TemplateValue) {
    (key.to_string(), value)
}

fn owned(items: &[&str]) -> Vec<String> {
    items.iter().map(|s| s.to_string()).collect()
}

fn plain(parameters: &RequestParameters, key: &str) -> Option<String> {
    parameters.get(key).map(|value| value.plain_text())
}

#[test]
fn template_parameters_are_kept() {
    let template = vec![entry("q", text("a b")), entry("lang", text("en"))];
    let merged = normalize(&template, &[]).unwrap();
    assert_eq!(merged.parameters.len(), 2);
    assert_eq!(plain(&merged.parameters, "q"), Some("a b".to_string()));
    assert_eq!(plain(&merged.parameters, "lang"), Some("en".to_string()));
    assert_eq!(plain(&merged.parameters, "count"), None);
    assert!(merged.skipped.is_empty());
}

#[test]
fn override_replaces_template_value() {
    let template = vec![entry("q", text("old")), entry("lang", text("en"))];
    let merged = normalize(&template, &owned(&["q=new"])).unwrap();
    assert_eq!(merged.parameters.len(), 2);
    assert_eq!(plain(&merged.parameters, "q"), Some("new".to_string()));
    assert_eq!(plain(&merged.parameters, "lang"), Some("en".to_string()));
}

#[test]
fn override_adds_a_new_key() {
    let template = vec![entry("q", text("x"))];
    let merged = normalize(&template, &owned(&["count=5"])).unwrap();
    assert_eq!(merged.parameters.len(), 2);
    assert_eq!(plain(&merged.parameters, "count"), Some("5".to_string()));
    assert!(matches!(merged.parameters.get("count"), Some(ScalarValue::Text(_))));
}

#[test]
fn later_override_wins_over_earlier() {
    let merged = normalize(&[], &owned(&["q=1", "q=2", "q=3"])).unwrap();
    assert_eq!(merged.parameters.len(), 1);
    assert_eq!(plain(&merged.parameters, "q"), Some("3".to_string()));
}

#[test]
fn malformed_overrides_are_skipped_and_the_rest_applied() {
    let template = vec![entry("q", text("x"))];
    let overrides = owned(&["novalue", "=nokey", "q=y", "", "lang=en", "="]);
    let merged = normalize(&template, &overrides).unwrap();
    assert_eq!(merged.skipped, vec![0, 1, 3, 5]);
    assert_eq!(merged.parameters.len(), 2);
    assert_eq!(plain(&merged.parameters, "q"), Some("y".to_string()));
    assert_eq!(plain(&merged.parameters, "lang"), Some("en".to_string()));
}

#[test]
fn malformed_override_changes_nothing() {
    let template = vec![entry("q", text("x"))];
    let with = normalize(&template, &owned(&["a=1", "broken", "b=2"])).unwrap();
    let without = normalize(&template, &owned(&["a=1", "b=2"])).unwrap();
    assert_eq!(with.parameters.len(), without.parameters.len());
    for at in 0..with.parameters.len() {
        assert_eq!(with.parameters.key_at(at), without.parameters.key_at(at));
        assert_eq!(
            with.parameters.value_at(at).plain_text(),
            without.parameters.value_at(at).plain_text()
        );
    }
}

#[test]
fn override_value_keeps_further_equals_signs() {
    let merged = normalize(&[], &owned(&["q=a=b"])).unwrap();
    assert_eq!(plain(&merged.parameters, "q"), Some("a=b".to_string()));
}

#[test]
fn numbers_and_booleans_are_supported() {
    let template = vec![
        entry("count", TemplateValue::Scalar(ScalarValue::Integer(-5))),
        entry("id", TemplateValue::Scalar(ScalarValue::Unsigned(u64::MAX))),
        entry("ratio", TemplateValue::Scalar(ScalarValue::Decimal("0.5".to_string()))),
        entry("trim", TemplateValue::Scalar(ScalarValue::Bool(true))),
        entry("full", TemplateValue::Scalar(ScalarValue::Bool(false))),
    ];
    let merged = normalize(&template, &[]).unwrap();
    assert_eq!(plain(&merged.parameters, "count"), Some("-5".to_string()));
    assert_eq!(plain(&merged.parameters, "id"), Some("18446744073709551615".to_string()));
    assert_eq!(plain(&merged.parameters, "ratio"), Some("0.5".to_string()));
    assert_eq!(plain(&merged.parameters, "trim"), Some("true".to_string()));
    assert_eq!(plain(&merged.parameters, "full"), Some("false".to_string()));
}

#[test]
fn array_value_is_unsupported() {
    let template = vec![entry("q", text("x")), entry("ids", TemplateValue::Array)];
    assert_eq!(normalize(&template, &[]).unwrap_err(), SignError::UnsupportedValueType);
}

#[test]
fn object_value_is_unsupported() {
    let template = vec![entry("filter", TemplateValue::Object)];
    assert_eq!(normalize(&template, &[]).unwrap_err(), SignError::UnsupportedValueType);
}

#[test]
fn null_value_is_unsupported() {
    let template = vec![entry("q", TemplateValue::Null)];
    assert_eq!(normalize(&template, &[]).unwrap_err(), SignError::UnsupportedValueType);
}

#[test]
fn override_does_not_repair_an_unsupported_template_value() {
    let template = vec![entry("ids", TemplateValue::Array)];
    let r = normalize(&template, &owned(&["ids=1"]));
    assert_eq!(r.unwrap_err(), SignError::UnsupportedValueType);
}

#[test]
fn repeated_template_key_counts_once() {
    let template = vec![entry("q", text("first")), entry("q", text("second"))];
    let merged = normalize(&template, &[]).unwrap();
    assert_eq!(merged.parameters.len(), 1);
    assert_eq!(plain(&merged.parameters, "q"), Some("second".to_string()));
}

#[test]
fn request_parameters_by_hand() {
    let mut parameters = RequestParameters::new();
    assert!(parameters.is_empty());
    parameters.insert("a".to_string(), ScalarValue::Integer(1));
    parameters.insert("b".to_string(), ScalarValue::Bool(true));
    parameters.insert("a".to_string(), ScalarValue::Text("one".to_string()));
    assert_eq!(parameters.len(), 2);
    assert!(!parameters.is_empty());
    assert_eq!(parameters.position("a"), Some(0));
    assert_eq!(parameters.position("b"), Some(1));
    assert_eq!(parameters.position("c"), None);
    assert_eq!(parameters.key_at(0), "a");
    assert_eq!(parameters.value_at(0).plain_text(), "one");
    assert_eq!(parameters.value_at(1).signed_text(), "true");
}

#[test]
fn error_messages_differ() {
    let clock = SignError::Clock.to_string();
    let value = SignError::UnsupportedValueType.to_string();
    let key = SignError::SigningKey.to_string();
    assert!(!clock.is_empty() && !value.is_empty() && !key.is_empty());
    assert_ne!(clock, value);
    assert_ne!(value, key);
    assert_ne!(clock, key);
}
