use vstd::prelude::*;

pub mod api_key_auth;
pub mod content_normalize;
pub mod filter;
pub mod identity_guard;
pub mod json;
pub mod jwt_auth;
pub mod metering;
pub mod model_access;
pub mod model_catalog;
pub mod reasoning_effort_map;
pub mod text;
pub mod token_usage;

verus! {

} // verus!
