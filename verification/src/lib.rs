//! Administrative identity and access control: password hashing, signed
//! bearer tokens, the per-request authorization decision and the
//! privilege-gated lifecycle of administrator accounts.

pub mod api_response;
pub mod config;
pub mod create;
pub mod error;
pub mod freeze;
pub mod guard;
pub mod history;
pub mod listing;
pub mod login;
pub mod memory;
pub mod model;
pub mod password;
pub mod protocol;
pub mod remove;
pub mod service;
pub mod token;
pub mod validation;
