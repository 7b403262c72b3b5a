//! Pure logic of the SOAP fallback that fetches a vSphere `ServiceContent`.
pub mod text;
pub mod soap;
pub mod reply;
pub mod content;
