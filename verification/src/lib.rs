//! Host-identification and connection-profile materialization for fleets of
//! near-identical machines that differ only in the MAC addresses of their
//! network interfaces.
//!
//! A build-time generator turns declarative network-state documents into
//! connection profiles plus a host-mapping store (hostname to logical
//! interface name and MAC address). At run time the identifier matches the
//! machine's live interfaces against the store by MAC address, and the
//! materializer installs the matched host's profiles, renaming interfaces
//! whose live name differs from the name assumed at build time.

pub mod generate;
pub mod identify;
pub mod materialize;
pub mod nm;
pub mod store;
pub mod text;
pub mod types;
