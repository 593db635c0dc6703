//! Core of a newsletter-delivery service: idempotent command execution for
//! newsletter dispatch, and credential verification that does not leak whether
//! a username exists.
//!
//! The relational store backing the idempotency records and the user table is
//! modelled by verified in-memory stores; the HTTP plumbing, session transport
//! and SMTP transport around them are external collaborators.

pub mod admin_newsletters;
pub mod admin_password;
pub mod authentication;
pub mod configuration;
pub mod domain;
pub mod email_client;
pub mod http;
pub mod idempotency;
pub mod login;
pub mod newsletters;
pub mod seq_map;
pub mod startup;
pub mod subscriptions;
pub mod text;
pub mod utils;
