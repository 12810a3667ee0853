//! Message dispatch, encryption policy and raw tunnel logic for a small
//! command-line chat sender.
pub mod armor;
pub mod policy;
pub mod dispatch;
pub mod tunnel;
