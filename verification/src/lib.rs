//! Core of a session-event listener: a notification-target window is created,
//! registered with the session-notification service, and a blocking retrieval
//! loop turns raw queue messages into typed session events.
//!
//! This crate holds the verified logic of that core: the decoder from raw
//! payload codes to typed events, the mapper from OS error codes to a closed
//! error taxonomy, the event-loop decision rules, the registration lifecycle,
//! and a model of the window-class registry. The raw OS calls themselves live
//! outside the library and feed their results into these functions.

pub mod errors;
pub mod event_loop;
pub mod events;
pub mod lifecycle;
pub mod target;

pub use errors::Error;
pub use events::DecodeError;
pub use events::WtsState;
