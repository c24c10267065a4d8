//! A gateway that turns the release assets of an upstream project into the
//! metadata that `apt`, `dnf` and `zypper` expect from a package repository.

pub mod apt;
pub mod codec;
pub mod db;
pub mod detect;
pub mod digest;
pub mod error;
pub mod package;
pub mod pattern;
pub mod pgp;
pub mod platform;
pub mod repository;
pub mod routes;
pub mod rpm;
pub mod script;
pub mod selector;
pub mod text;
pub mod utils;
pub mod version;
