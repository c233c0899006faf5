//! Request handling for an emulated runtime security subsystem: decoding of
//! the packed wire messages, the measured-boot and delegated-attestation
//! services, and encoding of the replies.
pub mod rss;
