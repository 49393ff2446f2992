//! Verified bookkeeping for the single per-thread GPU context binding slot.
//!
//! A rendering context is either current on the calling thread or not, and
//! the platform allows at most one current context per thread.  This crate
//! tracks a collection of such contexts, moves the binding between them, and
//! restores a known-good state when a platform rebind fails.  The platform
//! bind and unbind calls themselves are foreign, fallible operations; callers
//! hand them in as closures, and every contract here states what holds of the
//! tracker's bookkeeping whatever those calls return.

pub mod handle;
pub mod laws;
pub mod tracker;
