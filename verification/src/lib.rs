//! Authentication-Results logic for an OpenSMTPD filter that checks DKIM,
//! SPF and DKIM domain alignment.

pub mod text;
pub mod domain;
pub mod verify;
pub mod filter;
pub mod config;
