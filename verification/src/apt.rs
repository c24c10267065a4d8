//! The APT side of the gateway: Debian packages and the indices of a Debian
//! repository.

pub mod deb;
pub mod index;
