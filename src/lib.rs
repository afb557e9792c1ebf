//! Identity and credential handling: stable pseudonymous identifiers, salted
//! memory-hard password records, their on-disk layout, and the login
//! protocol that verifies and rotates them. Beside it, the site's page
//! options, maintenance form decisions and article bookkeeping.

pub mod account;
pub mod bsod;
pub mod config;
pub mod error;
pub mod hasher;
pub mod ident;
pub mod main_page;
pub mod mainte;
pub mod record;
pub mod service;
pub mod text;
