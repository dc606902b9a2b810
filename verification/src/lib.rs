//! A client for the PackageKit package-management service, with the
//! marshalling between native buffers and owned values verified.
//!
//! The library never touches the native backend itself. It says which
//! request an operation sends and what the backend's answer means; the
//! caller performs the native call in between.

pub mod client;
pub mod error;
pub mod ident;
pub mod package;
pub mod text;

pub use crate::client::{PackageKit, Request, Results};
pub use crate::error::Error;
pub use crate::package::{Package, RawPackage};
