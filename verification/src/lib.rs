//! Core engine of a multi-architecture bootloader.
//!
//! The engine validates the handoff record of a first-stage loader, keeps an
//! inventory of discovered hardware, mounts storage volumes through a
//! pluggable read-only filesystem layer, locates and decodes a declarative
//! JSON boot configuration, verifies boot entries, parses and places ELF64
//! kernel images together with an optional initial RAM disk, and prepares the
//! architecture-specific handoff that a thin unverified shell then executes.

pub mod util;

pub mod logger;

pub mod hal;

pub mod json;

pub mod fs;

pub mod config;

pub mod loader;

pub mod security;

pub mod plugins;

pub mod menu;
