//! OAuth 1.0a request signing: percent-encoding, parameter normalization and
//! the HMAC-SHA1 signature with its `Authorization` header value.

pub mod canonical;
pub mod decimal;
pub mod error;
pub mod find;
pub mod method;
pub mod normalize;
pub mod oauth;
pub mod order;
pub mod outside;
pub mod overrides;
pub mod parameters;
pub mod percent;
pub mod request;
pub mod signer;
pub mod text;
pub mod value;
