//! Exported errors

pub use crate::mutable::MutableError;
pub use crate::signed_announce::SignedAnnounceError;
