//! A verified core for a social-media post tagger.
//!
//! The library polls an account timeline through pluggable ports, classifies
//! each post against a user-defined taxonomy of tag definitions, renders the
//! result into platform-appropriate text, and records what was published so
//! that each (post, taxonomy-version) pair is processed at most once.
//!
//! The orchestration — idempotency keying, the dual-window rate limiter,
//! definition prefiltering, rendering, and the provider-agnostic
//! classification contract — is verified; network, disk and process edges
//! stay behind the ports in `ports`.

use vstd::prelude::*;

pub mod classify;
pub mod config;
pub mod definitions;
pub mod llm;
pub mod model;
pub mod policy;
pub mod ports;
pub mod rate_limiter;
pub mod render;
pub mod run_loop;
pub mod state_memory;
pub mod strutil;
pub mod stub;

verus! {

} // verus!
