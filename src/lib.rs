//! Turns snapshots of a home router's status pages into a stream of new
//! events: phone calls that were not reported yet, and changes of the
//! line's speed category or external address.

pub mod timm;
