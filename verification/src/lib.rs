//! Decisions of a small self-hosted Git forge.
//!
//! The library decides; it reads no file, runs no program and sends nothing. What a
//! server finds out is handed in as plain values, and what comes back is the next step
//! or an [`reply::Answer`].
//!
//! - who may do what: [`access`], [`groups`], [`accounts`], [`decisions`]
//! - who sent a request: [`sessions`], [`login`], [`credentials`]
//! - what a request is about: [`names`], [`percent`], [`cgi`]
//! - what is done with repositories: [`repos`], [`browse`]
//! - what the pages in the browser show: [`pages`]
//! - the means: [`text`], [`order`], [`store`], and what other crates are trusted
//!   with, [`outside`]

pub mod access;
pub mod accounts;
pub mod browse;
pub mod cgi;
pub mod credentials;
pub mod decisions;
pub mod groups;
pub mod login;
pub mod names;
pub mod order;
pub mod outside;
pub mod pages;
pub mod percent;
pub mod reply;
pub mod repos;
pub mod sessions;
pub mod store;
pub mod text;
