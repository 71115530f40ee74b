use vstd::prelude::*;

pub mod capture;
pub mod config;
pub mod endpoint;
pub mod image;
pub mod persist;
pub mod session;
pub mod signals;

pub use endpoint::find_readable_endpoint;

verus! {

/// A resolved communication channel on the scanner.
///
/// The four values identify one endpoint inside one device descriptor tree:
/// the configuration to activate, the interface to claim, the alternate
/// setting to select, and the endpoint address (direction bit included). They
/// are only meaningful together, as produced by a single traversal of the
/// tree.
#[derive(Clone, Copy, Debug, PartialEq, Eq, Structural)]
pub struct Endpoint {
    pub config: u8,
    pub iface: u8,
    pub setting: u8,
    pub address: u8,
}

} // verus!
