//! The RPM side of the gateway: RPM packages and the indices of an RPM
//! repository.

pub mod index;
pub mod layout;
pub mod metadata;
pub mod package;
