//! Attendance-proof token registry.
//!
//! An organizer registers an event with a claim window and a supply cap, and
//! participants claim exactly one non-transferable token each while the window
//! is open and supply remains.  The registry, the creator-approval workflow and
//! the claim engine are modeled and verified here over plain values; the host
//! ledger (authentication, persistence, current time) drives these entry points
//! from outside.

pub mod errors;
pub mod laws;
pub mod registry;
pub mod single_event;

pub use errors::SpotError;
pub use errors::SpotEventError;
pub use registry::Address;
pub use registry::ApprovalEntry;
pub use registry::Claim;
pub use registry::CreatorApproval;
pub use registry::EventData;
pub use registry::Spot;
pub use single_event::SpotEvent;
