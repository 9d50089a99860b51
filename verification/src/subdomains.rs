//! Enumeration modules that discover related identifiers for a domain.
pub mod crtsh;
