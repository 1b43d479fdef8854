//! Building blocks for deadline-aware invocation harnesses and for
//! credential-rotation lambdas against a key-versioned secret store.
//!
//! The crate models the parts of such a harness that can be stated and
//! checked precisely: how a wake-up time is derived from an absolute
//! deadline, how a timed-out invocation is told apart from a failed one,
//! how throttling responses of the store are recognised, how a secret
//! payload is split into typed and unrecognised fields without losing
//! either, and how the four-step rotation protocol advances a secret
//! through the store's version stages.

mod deadline;
mod harness;
mod json;
pub mod rotate;
mod throttle;

pub use deadline::wake_delay_ms;
pub use deadline::SAFETY_MARGIN_MS;
pub use harness::exec_test;
pub use harness::resolve_race;
pub use harness::InvocationError;
pub use harness::Runner;
pub use harness::TestData;
pub use throttle::cooldown_ms;
pub use throttle::is_throttle_response;
pub use throttle::retry_decision;
pub use throttle::slice_contains;
