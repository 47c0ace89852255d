//! One module for each family of record types.



/// The subtypes of the deprecated BGP record type, for IPv4 peers.
pub mod bgp;

/// The subtypes of BGP4MP records.
pub mod bgp4mp;

/// The subtypes of the deprecated BGP4PLUS record types, for IPv6 peers.
pub mod bgp4plus;

/// The payload of ISIS records.
pub mod isis;

/// The payloads of OSPFv2 and OSPFv3 records.
pub mod ospf;

/// The payloads of RIP and RIPNG records.
pub mod rip;

/// The payloads of TABLE_DUMP and TABLE_DUMP_V2 records.
pub mod tabledump;

