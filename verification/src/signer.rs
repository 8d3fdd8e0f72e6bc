//! The signature of a request and the value of its `Authorization` header.

use crate::canonical::{join, joined, normalized_parameter_string, parameter_string};
use crate::decimal::{decimal, decimal_text};
use crate::error::SignError;
use crate::method::Method;
use crate::oauth::{Credentials, CredentialsView, OAuthParameters, OAuthView};
use crate::outside::{authentication_code, base64_standard, base64_text, hmac_sha1};
use crate::order::{lemma_ascii_text_le, lemma_text_order_total, text_order};
use crate::parameters::{Entries, RequestParameters};
use crate::percent::{percent_encode, percent_encoded};
use crate::text::texts;
use vstd::prelude::*;
use vstd::string::StringExecFns;
use vstd::relations::sorted_by;
use vstd::utf8::encode_utf8;

verus! {

/// The signature base string: the verb, the encoded URL and the encoded
/// normalized parameter string, with `&` between them.
pub open spec fn base_string(method: Method, url: Seq<char>, entries: Entries, oauth: OAuthView) -> Seq<
    char,
> {
    method.verb() + seq!['&'] + percent_encoded(url) + seq!['&'] + percent_encoded(
        parameter_string(entries, oauth),
    )
}

/// The signing key: the two secrets, each percent-encoded, with `&` between
/// them.
pub open spec fn signing_key(credentials: CredentialsView) -> Seq<char> {
    percent_encoded(credentials.consumer_secret) + seq!['&'] + percent_encoded(
        credentials.access_token_secret,
    )
}

/// The signature of a base string under a key: the base64 text of the
/// HMAC-SHA1 code.
pub open spec fn signature_of(key: Seq<char>, base: Seq<char>) -> Seq<char> {
    base64_standard(hmac_sha1(encode_utf8(key), encode_utf8(base)))
}

/// One item of the header: the key, then the encoded value in double quotes.
pub open spec fn header_item(key: Seq<char>, value: Seq<char>) -> Seq<char> {
    key + seq!['=', '"'] + percent_encoded(value) + seq!['"']
}

/// The keys of the header's items, in ascending order.
pub open spec fn header_keys() -> Seq<Seq<char>> {
    seq![
        "oauth_consumer_key"@,
        "oauth_nonce"@,
        "oauth_signature"@,
        "oauth_signature_method"@,
        "oauth_timestamp"@,
        "oauth_token"@,
        "oauth_version"@,
    ]
}

/// The values of the header's items, in the order of [`header_keys`].
pub open spec fn header_values(oauth: OAuthView, signature: Seq<char>) -> Seq<Seq<char>> {
    seq![
        oauth.consumer_key,
        oauth.nonce,
        signature,
        "HMAC-SHA1"@,
        decimal(oauth.timestamp),
        oauth.token,
        "1.0"@,
    ]
}

/// The items of the header, in the order of their keys.
pub open spec fn header_items(oauth: OAuthView, signature: Seq<char>) -> Seq<Seq<char>> {
    Seq::new(7, |i: int| header_item(header_keys()[i], header_values(oauth, signature)[i]))
}

/// The value of the `Authorization` header: `OAuth`, a space, and the items
/// with a comma and a space between each two.
pub open spec fn authorization(oauth: OAuthView, signature: Seq<char>) -> Seq<char> {
    "OAuth "@ + joined(header_items(oauth, signature), ", "@)
}

/// The header value of a signed request.
pub open spec fn signed_header(
    method: Method,
    url: Seq<char>,
    entries: Entries,
    oauth: OAuthView,
    credentials: CredentialsView,
) -> Seq<char> {
    authorization(
        oauth,
        signature_of(signing_key(credentials), base_string(method, url, entries, oauth)),
    )
}

/// The items of the header stand in ascending byte-lexicographic order of
/// their keys.
pub proof fn lemma_header_keys_ascending()
    ensures
        sorted_by(header_keys(), text_order()),
{
    let keys = header_keys();
    reveal_strlit("oauth_consumer_key");
    reveal_strlit("oauth_nonce");
    reveal_strlit("oauth_signature");
    reveal_strlit("oauth_signature_method");
    reveal_strlit("oauth_timestamp");
    reveal_strlit("oauth_token");
    reveal_strlit("oauth_version");
    lemma_ascii_text_le(keys[0], keys[1], 6);
    lemma_ascii_text_le(keys[1], keys[2], 6);
    lemma_ascii_text_le(keys[2], keys[3], 15);
    lemma_ascii_text_le(keys[3], keys[4], 6);
    lemma_ascii_text_le(keys[4], keys[5], 7);
    lemma_ascii_text_le(keys[5], keys[6], 6);
    lemma_text_order_total();
    let order = text_order();
    assert(order(keys[0], keys[1]) && order(keys[1], keys[2]) && order(keys[2], keys[3]) && order(
        keys[3],
        keys[4],
    ) && order(keys[4], keys[5]) && order(keys[5], keys[6]));
}

/// Builds the signature base string of a request.
pub fn signature_base_string(
    method: Method,
    url: &str,
    parameters: &RequestParameters,
    oauth: &OAuthParameters,
) -> (out: String)
    ensures
        out@ == base_string(method, url@, parameters.entries(), oauth@),
{
    let normalized = normalized_parameter_string(parameters, oauth);
    let mut out = method.to_string();
    out.push('&');
    out.append(percent_encode(url).as_str());
    out.push('&');
    out.append(percent_encode(normalized.as_str()).as_str());
    out
}

/// Builds the signing key from the two secrets.
pub fn signing_key_text(credentials: &Credentials) -> (out: String)
    ensures
        out@ == signing_key(credentials@),
{
    let mut out = percent_encode(credentials.consumer_secret.as_str());
    out.push('&');
    out.append(percent_encode(credentials.access_token_secret.as_str()).as_str());
    out
}

/// The signature for what the computation of the authentication code gave:
/// the base64 text of the code, or the signing-key error where the key was
/// turned down.
pub fn signature_text(code: Result<Vec<u8>, hmac::digest::InvalidLength>) -> (r: Result<
    String,
    SignError,
>)
    requires
        code matches Ok(bytes) ==> bytes@.len() / 3 * 4 + 4 <= usize::MAX,
    ensures
        match code {
            Ok(bytes) => r matches Ok(text) && text@ == base64_standard(bytes@),
            Err(_) => r == Err::<String, SignError>(SignError::SigningKey),
        },
{
    match code {
        Ok(bytes) => Ok(base64_text(bytes.as_slice())),
        Err(_) => Err(SignError::SigningKey),
    }
}

/// Signs a base string with a key. A key of any length, the empty one too,
/// gives a signature.
pub fn signature(key: &str, base: &str) -> (r: Result<String, SignError>)
    ensures
        r matches Ok(text) && text@ == signature_of(key@, base@),
{
    signature_text(authentication_code(key.as_bytes(), base.as_bytes()))
}

/// Writes one item of the header.
pub fn header_item_text(key: &str, value: &str) -> (out: String)
    ensures
        out@ == header_item(key@, value@),
{
    let mut out = key.to_owned();
    out.push('=');
    out.push('"');
    out.append(percent_encode(value).as_str());
    out.push('"');
    out
}

/// Writes the value of the `Authorization` header for the given protocol
/// parameters and signature.
pub fn authorization_header(oauth: &OAuthParameters, signature: &str) -> (out: String)
    ensures
        out@ == authorization(oauth@, signature@),
{
    let timestamp = decimal_text(oauth.timestamp);
    let mut items: Vec<String> = Vec::new();
    items.push(header_item_text("oauth_consumer_key", oauth.consumer_key.as_str()));
    items.push(header_item_text("oauth_nonce", oauth.nonce.as_str()));
    items.push(header_item_text("oauth_signature", signature));
    items.push(header_item_text("oauth_signature_method", "HMAC-SHA1"));
    items.push(header_item_text("oauth_timestamp", timestamp.as_str()));
    items.push(header_item_text("oauth_token", oauth.token.as_str()));
    items.push(header_item_text("oauth_version", "1.0"));
    assert(texts(items@) =~= header_items(oauth@, signature@));
    let mut out = "OAuth ".to_owned();
    out.append(join(items.as_slice(), ", ").as_str());
    out
}

/// Signs a request: the value of its `Authorization` header. Whatever the
/// secrets are, empty ones too, the request is signed.
pub fn sign(
    method: Method,
    url: &str,
    parameters: &RequestParameters,
    oauth: &OAuthParameters,
    credentials: &Credentials,
) -> (r: Result<String, SignError>)
    ensures
        r matches Ok(header) && header@ == signed_header(
            method,
            url@,
            parameters.entries(),
            oauth@,
            credentials@,
        ),
{
    let base = signature_base_string(method, url, parameters, oauth);
    let key = signing_key_text(credentials);
    match signature(key.as_str(), base.as_str()) {
        Ok(text) => Ok(authorization_header(oauth, text.as_str())),
        Err(e) => Err(e),
    }
}

} // verus!
