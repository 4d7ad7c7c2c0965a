//! Authenticated request pipeline of a REST API client: URL composition,
//! Hawk request signing, and the retry decisions around each call.

pub mod address;
pub mod client;
pub mod encoding;
pub mod error;
pub mod retry;
pub mod sign;

pub use address::{compose_request_url, is_valid_segment, path_leaves_host, JoinedUrl};
pub use client::{Client, ComposedRequest, Credentials};
pub use encoding::{form_encode_into, query_string_into, urlencode};
pub use error::Error;
pub use retry::{classify, decide, final_result, Action, Outcome, RetryLoop, MAX_ELAPSED_MS};
pub use sign::{authorization_value, sign_request, signing_context, signing_target};
