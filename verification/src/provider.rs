//! What header resolution reads of a provider.

use vstd::prelude::*;
use crate::json::JsonValue;

verus! {

/// How the configured request headers turn into the headers that are sent.
pub enum RequestHeadersAuthMode {
    /// The headers are the input of the HIS token script, whose extractor
    /// gives the headers that are sent.
    HisToken,
}

/// The part of a provider's metadata that concerns request headers.
pub struct ProviderMeta {
    /// Headers set in the provider's "Request Headers" field, name and value.
    pub request_headers: Option<Vec<(String, String)>>,
    /// How the headers are used; sent as they are when absent.
    pub request_headers_auth_mode: Option<RequestHeadersAuthMode>,
}

/// A provider as far as its request headers go.
pub struct Provider {
    /// The provider's settings document; `headers` and `requestHeaders`
    /// in it are older places for request headers.
    pub settings_config: JsonValue,
    pub meta: Option<ProviderMeta>,
}

} // verus!
