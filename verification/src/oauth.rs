//! Credentials and the protocol parameters of one request.

use crate::decimal::decimal;
use crate::error::SignError;
use crate::outside::{choose_at_random, since_unix_epoch, whole_seconds};
use crate::parameters::Entries;
use crate::value::ScalarView;
use vstd::prelude::*;

verus! {

/// The keys and secrets that a request is signed with.
#[derive(Debug)]
pub struct Credentials {
    pub consumer_key: String,
    pub consumer_secret: String,
    pub access_token: String,
    pub access_token_secret: String,
}

/// What [`Credentials`] hold.
pub struct CredentialsView {
    pub consumer_key: Seq<char>,
    pub consumer_secret: Seq<char>,
    pub access_token: Seq<char>,
    pub access_token_secret: Seq<char>,
}

impl View for Credentials {
    type V = CredentialsView;

    open spec fn view(&self) -> CredentialsView {
        CredentialsView {
            consumer_key: self.consumer_key@,
            consumer_secret: self.consumer_secret@,
            access_token: self.access_token@,
            access_token_secret: self.access_token_secret@,
        }
    }
}

impl Credentials {
    /// Whether one of the two secrets is empty. Such credentials are signed
    /// with all the same, under a key that is weaker than it could be.
    pub fn has_empty_secret(&self) -> (r: bool)
        ensures
            r == (self@.consumer_secret.len() == 0 || self@.access_token_secret.len() == 0),
    {
        self.consumer_secret.as_str().is_empty() || self.access_token_secret.as_str().is_empty()
    }
}

/// The protocol parameters of one request, but for the signature. The
/// version is always `1.0` and the signature method always `HMAC-SHA1`.
#[derive(Debug)]
pub struct OAuthParameters {
    /// `oauth_consumer_key`
    pub consumer_key: String,
    /// `oauth_token`
    pub token: String,
    /// `oauth_nonce`
    pub nonce: String,
    /// `oauth_timestamp`, in seconds since the Unix epoch
    pub timestamp: u64,
}

/// What [`OAuthParameters`] hold.
pub struct OAuthView {
    pub consumer_key: Seq<char>,
    pub token: Seq<char>,
    pub nonce: Seq<char>,
    pub timestamp: nat,
}

impl View for OAuthParameters {
    type V = OAuthView;

    open spec fn view(&self) -> OAuthView {
        OAuthView {
            consumer_key: self.consumer_key@,
            token: self.token@,
            nonce: self.nonce@,
            timestamp: self.timestamp as nat,
        }
    }
}

impl OAuthView {
    /// The protocol parameters for the given credentials.
    pub open spec fn of(credentials: CredentialsView, nonce: Seq<char>, timestamp: nat) -> OAuthView {
        OAuthView {
            consumer_key: credentials.consumer_key,
            token: credentials.access_token,
            nonce,
            timestamp,
        }
    }

    /// The protocol parameters that are signed, as entries in the order of
    /// their keys.
    pub open spec fn entries(self) -> Entries {
        seq![
            ("oauth_consumer_key"@, ScalarView::Text(self.consumer_key)),
            ("oauth_nonce"@, ScalarView::Text(self.nonce)),
            ("oauth_signature_method"@, ScalarView::Text("HMAC-SHA1"@)),
            ("oauth_timestamp"@, ScalarView::Text(decimal(self.timestamp))),
            ("oauth_token"@, ScalarView::Text(self.token)),
            ("oauth_version"@, ScalarView::Text("1.0"@)),
        ]
    }
}

/// Whether a character is a hexadecimal digit in lower case.
pub open spec fn lower_hex(c: char) -> bool {
    ('0' <= c <= '9') || ('a' <= c <= 'f')
}

/// Whether a text has the form of a generated nonce: thirty-two hexadecimal
/// digits in lower case.
pub open spec fn is_nonce(text: Seq<char>) -> bool {
    text.len() == 32 && forall|i: int| 0 <= i < text.len() ==> lower_hex(#[trigger] text[i])
}

/// The digits that a nonce is drawn from.
pub fn nonce_alphabet() -> (symbols: Vec<char>)
    ensures
        symbols@ == seq![
            '0', '1', '2', '3', '4', '5', '6', '7', '8', '9', 'a', 'b', 'c', 'd', 'e', 'f',
        ],
{
    vec!['0', '1', '2', '3', '4', '5', '6', '7', '8', '9', 'a', 'b', 'c', 'd', 'e', 'f']
}

/// A fresh nonce: thirty-two hexadecimal digits in lower case, each drawn
/// on its own from all sixteen.
pub fn generate_nonce() -> (nonce: String)
    ensures
        is_nonce(nonce@),
{
    let symbols = nonce_alphabet();
    assert forall|c: char| symbols@.contains(c) implies lower_hex(c) by {
        let i = choose|i: int| 0 <= i < symbols@.len() && symbols@[i] == c;
        assert(lower_hex(symbols@[i]));
    }
    let mut nonce = String::new();
    let mut drawn: usize = 0;
    while drawn < 32
        invariant
            drawn <= 32,
            nonce@.len() == drawn,
            symbols@.len() == 16,
            forall|c: char| symbols@.contains(c) ==> lower_hex(c),
            forall|i: int| 0 <= i < nonce@.len() ==> lower_hex(#[trigger] nonce@[i]),
        decreases 32 - drawn,
    {
        // of sixteen symbols one is always chosen
        if let Some(symbol) = choose_at_random(symbols.as_slice()) {
            nonce.push(symbol);
            drawn += 1;
        }
    }
    nonce
}

/// The timestamp for what the clock gave: the whole seconds since the Unix
/// epoch, or the clock error where the clock stands before it.
pub fn timestamp_of(reading: Result<std::time::Duration, std::time::SystemTimeError>) -> (r: Result<
    u64,
    SignError,
>)
    ensures
        r == match reading {
            Ok(elapsed) => Ok::<u64, SignError>(whole_seconds(elapsed)),
            Err(_) => Err::<u64, SignError>(SignError::Clock),
        },
{
    match reading {
        Ok(elapsed) => Ok(elapsed.as_secs()),
        Err(_) => Err(SignError::Clock),
    }
}

/// The current time in whole seconds since the Unix epoch.
pub fn current_timestamp() -> (r: Result<u64, SignError>)
    ensures
        r matches Err(e) ==> e == SignError::Clock,
{
    let now = std::time::SystemTime::now();
    timestamp_of(since_unix_epoch(&now))
}

impl OAuthParameters {
    /// The protocol parameters for the given credentials, nonce and time.
    pub fn new(credentials: &Credentials, nonce: String, timestamp: u64) -> (oauth: Self)
        ensures
            oauth@ == OAuthView::of(credentials@, nonce@, timestamp as nat),
    {
        OAuthParameters {
            consumer_key: credentials.consumer_key.clone(),
            token: credentials.access_token.clone(),
            nonce,
            timestamp,
        }
    }

    /// The protocol parameters for the given credentials, with a fresh nonce
    /// and the current time. Fails where the clock stands before the Unix
    /// epoch.
    pub fn generate(credentials: &Credentials) -> (r: Result<Self, SignError>)
        ensures
            match r {
                Ok(oauth) => is_nonce(oauth@.nonce) && oauth@ == OAuthView::of(
                    credentials@,
                    oauth@.nonce,
                    oauth@.timestamp,
                ),
                Err(e) => e == SignError::Clock,
            },
    {
        match current_timestamp() {
            Ok(timestamp) => Ok(OAuthParameters::new(credentials, generate_nonce(), timestamp)),
            Err(e) => Err(e),
        }
    }
}

} // verus!
