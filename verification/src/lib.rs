//! Verified core of the sysand package manager for SysML v2 and KerML
//! interchange projects.

pub mod text;
pub mod error;
pub mod types;
pub mod purl;
pub mod versions;
pub mod index_store;
pub mod url_model;
pub mod index_location;
pub mod http_index;
pub mod discovery;
pub mod indexed_remote;
pub mod facade;
pub mod cli;
pub mod credentials;
pub mod bindings;
