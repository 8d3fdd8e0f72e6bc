//! From a request template to a request that is ready to be sent.

use crate::canonical::lemma_parameter_string_order;
use crate::error::SignError;
use crate::method::Method;
use crate::normalize::{
    all_supported, normalize, rejected, request_entries, template_entries, with_overrides,
};
use crate::oauth::{is_nonce, Credentials, CredentialsView, OAuthParameters, OAuthView};
use crate::parameters::{distinct_keys, map_of, Entries, RequestParameters};
use crate::signer::{sign, signed_header};
use crate::text::texts;
use crate::value::TemplateValue;
use vstd::prelude::*;
use vstd::string::StringExecFns;

verus! {

/// A request as its author wrote it down: where it goes, how, and with which
/// parameters.
#[derive(Debug)]
pub struct Template {
    /// The path of the endpoint below the root of the API.
    pub endpoint: String,
    /// The HTTP method.
    pub method: Method,
    /// The parameters, each with its key.
    pub parameters: Vec<(String, TemplateValue)>,
}

/// A request that is ready to be sent.
#[derive(Debug)]
pub struct SignedRequest {
    /// The HTTP method.
    pub method: Method,
    /// The full URL of the endpoint.
    pub url: String,
    /// The parameters to send; they are the ones that were signed.
    pub parameters: RequestParameters,
    /// The protocol parameters that were signed.
    pub oauth: OAuthParameters,
    /// The value of the `Authorization` header.
    pub authorization: String,
    /// The places of the overrides that were skipped.
    pub skipped: Vec<usize>,
}

/// The URL of an endpoint: its path below the root of the API.
pub open spec fn endpoint_url(endpoint: Seq<char>) -> Seq<char> {
    "https://api.twitter.com/1.1/"@ + endpoint
}

/// Whether `request` is what the template, the overrides and the credentials
/// give with the protocol parameters `oauth`.
pub open spec fn prepared(
    template: Template,
    overrides: Seq<Seq<char>>,
    credentials: CredentialsView,
    oauth: OAuthView,
    request: SignedRequest,
) -> bool {
    &&& request.method == template.method
    &&& request.url@ == endpoint_url(template.endpoint@)
    &&& request.parameters.wf()
    &&& request.parameters.entries() == request_entries(template.parameters@, overrides)
    &&& request.parameters@ == with_overrides(
        map_of(template_entries(template.parameters@)),
        overrides,
    )
    &&& request.skipped@ == rejected(overrides)
    &&& request.oauth@ == oauth
    &&& request.authorization@ == signed_header(
        template.method,
        endpoint_url(template.endpoint@),
        request.parameters.entries(),
        oauth,
        credentials,
    )
}

/// Signing is a function of what is signed: requests that agree in method,
/// URL, protocol parameters and credentials, and whose parameters are the
/// same mapping, get the same header value, in whatever order the
/// parameters were put in.
pub proof fn lemma_signing_is_deterministic(
    method: Method,
    url: Seq<char>,
    a: Entries,
    b: Entries,
    oauth: OAuthView,
    credentials: CredentialsView,
)
    requires
        distinct_keys(a),
        distinct_keys(b),
        map_of(a) == map_of(b),
    ensures
        signed_header(method, url, a, oauth, credentials) == signed_header(
            method,
            url,
            b,
            oauth,
            credentials,
        ),
{
    lemma_parameter_string_order(a, b, oauth);
}

impl Template {
    /// The full URL of the endpoint.
    pub fn url(&self) -> (out: String)
        ensures
            out@ == endpoint_url(self.endpoint@),
    {
        let mut out = "https://api.twitter.com/1.1/".to_owned();
        out.append(self.endpoint.as_str());
        out
    }
}

/// Prepares the request of a template with the given overrides, nonce and
/// time: normalizes the parameters and signs. Fails where a template
/// parameter is neither a text, a number nor a boolean, and there only.
pub fn prepare_with(
    template: &Template,
    overrides: &[String],
    credentials: &Credentials,
    nonce: String,
    timestamp: u64,
) -> (r: Result<SignedRequest, SignError>)
    ensures
        match r {
            Ok(request) => all_supported(template.parameters@) && prepared(
                *template,
                texts(overrides@),
                credentials@,
                OAuthView::of(credentials@, nonce@, timestamp as nat),
                request,
            ),
            Err(e) => e == SignError::UnsupportedValueType && !all_supported(template.parameters@),
        },
{
    let oauth = OAuthParameters::new(credentials, nonce, timestamp);
    prepare_signed(template, overrides, credentials, oauth)
}

/// Prepares the request of a template with the given overrides, a fresh
/// nonce and the current time. Fails where a template parameter is neither a
/// text, a number nor a boolean, and where the clock stands before the Unix
/// epoch.
pub fn prepare(template: &Template, overrides: &[String], credentials: &Credentials) -> (r: Result<
    SignedRequest,
    SignError,
>)
    ensures
        match r {
            Ok(request) => {
                &&& all_supported(template.parameters@)
                &&& is_nonce(request.oauth@.nonce)
                &&& prepared(
                    *template,
                    texts(overrides@),
                    credentials@,
                    OAuthView::of(credentials@, request.oauth@.nonce, request.oauth@.timestamp),
                    request,
                )
            },
            Err(e) => if all_supported(template.parameters@) {
                e == SignError::Clock
            } else {
                e == SignError::UnsupportedValueType
            },
        },
{
    if !supported(&template.parameters) {
        return Err(SignError::UnsupportedValueType);
    }
    match OAuthParameters::generate(credentials) {
        Ok(oauth) => prepare_signed(template, overrides, credentials, oauth),
        Err(e) => Err(e),
    }
}

/// Whether every parameter of the template is a text, a number or a boolean.
pub fn supported(template: &[(String, TemplateValue)]) -> (r: bool)
    ensures
        r == all_supported(template@),
{
    let mut i: usize = 0;
    while i < template.len()
        invariant
            i <= template@.len(),
            forall|k: int| 0 <= k < i ==> (#[trigger] template@[k]).1 is Scalar,
        decreases template@.len() - i,
    {
        if !template[i].1.is_supported() {
            return false;
        }
        i += 1;
    }
    true
}

/// Normalizes and signs with the given protocol parameters.
fn prepare_signed(
    template: &Template,
    overrides: &[String],
    credentials: &Credentials,
    oauth: OAuthParameters,
) -> (r: Result<SignedRequest, SignError>)
    ensures
        match r {
            Ok(request) => all_supported(template.parameters@) && prepared(
                *template,
                texts(overrides@),
                credentials@,
                oauth@,
                request,
            ),
            Err(e) => e == SignError::UnsupportedValueType && !all_supported(template.parameters@),
        },
{
    match normalize(template.parameters.as_slice(), overrides) {
        Ok(merged) => {
            let url = template.url();
            match sign(template.method, url.as_str(), &merged.parameters, &oauth, credentials) {
                Ok(authorization) => Ok(
                    SignedRequest {
                        method: template.method,
                        url,
                        parameters: merged.parameters,
                        oauth,
                        authorization,
                        skipped: merged.skipped,
                    },
                ),
                Err(e) => Err(e),
            }
        },
        Err(e) => Err(e),
    }
}

} // verus!
