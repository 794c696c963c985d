//! A personal key-value vault for `.env` files.
//!
//! The vault copies an environment file into a per-key storage location,
//! later re-establishes it in a project directory via a symbolic link,
//! lists known keys, and deletes stored keys.

pub mod commands;
pub mod error;
pub mod laws;
pub mod memory;
pub mod storage;
pub mod text;
