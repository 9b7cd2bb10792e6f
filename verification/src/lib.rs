//! A caching layer for "list my subscriptions" requests against an upstream
//! API that only pages forward through continuation cursors.
//!
//! The upstream collection is drained page by page, sorted by item count,
//! filtered by a free-text query and kept, per identity, filter and sort
//! direction, in a time-limited cache from which any page is a plain slice.
//! Requests that change the collection, or ask for a fresh view of it, drop
//! what is kept for their identity.
//!
//! The library performs no network call. A request is a small state machine:
//! the library says which upstream call to make, the caller makes it and
//! hands back the reply. The state is plain data; callers that share it
//! between requests lock it for one call at a time.
//!
//! - [`subscriptions`]: the coordinator of a request, from cache lookup to
//!   the page returned;
//! - [`mutation`]: unsubscribe and refresh, and the invalidation they end in;
//! - [`direct`]: one page in upstream order straight off the cursor chain;
//! - [`state`], [`chain`], [`cache`]: the shared state and its two stores;
//! - [`sort`], [`filter`], [`paging`], [`query`]: the steps of materializing
//!   a list and cutting a page;
//! - [`upstream`], [`item`]: replies of the upstream API and their records;
//! - [`laws`]: theorems that tie the parts together;
//! - [`auth`], [`handlers`], [`models`]: the computing parts of sign-in and
//!   of the user endpoint.
//!
//! Every function carries a contract that Verus proves. Calls that leave the
//! library, to `serde_json`, `urlencoding` and to parts of std that have no
//! specification ([`json`], [`text`], [`clock`], [`auth`]), go through small
//! wrappers whose contracts are assumed; each says so in its documentation.

pub mod text;
pub mod json;
pub mod clock;
pub mod item;
pub mod sort;
pub mod filter;
pub mod paging;
pub mod query;
pub mod assoc;
pub mod chain;
pub mod cache;
pub mod state;
pub mod upstream;
pub mod subscriptions;
pub mod direct;
pub mod mutation;
pub mod laws;
pub mod auth;
pub mod models;
pub mod handlers;
