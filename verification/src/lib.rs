//! A pluggable console log sink.
//!
//! The sink receives structured log events, decides whether each event is
//! eligible for emission through memoized, user-supplied predicates, renders
//! eligible events as aligned tabular text, and chooses an output stream by
//! severity.  The eligibility cache and the grid renderer carry full
//! functional contracts; the process-wide facade registration and the actual
//! stream writes live outside the verified core.

pub mod builder;
pub mod cache;
pub mod clock;
pub mod facade;
pub mod filter;
pub mod initiator;
pub mod layout;
pub mod settings;
pub mod severity;
pub mod stdout;
pub mod text;

pub use severity::Event;
pub use severity::Metadata;
pub use severity::Severity;
