//! Conversion layer of the node-discovery bootstrap service: a bit-window
//! accessor over 64-bit flag words, the capability vocabulary built on it, a
//! fixed binary layout for composite fields, and the conversions between the
//! wire messages and the domain values.
pub mod bootstrap;
pub mod capabilities;
pub mod codec;
pub mod error;
pub mod flags;

pub use bootstrap::{
    BootstrapInfoRequest, BootstrapInfoRequestPb, BootstrapInfoResponse, BootstrapInfoResponsePb,
    BootstrapSnapshotNode, ConstantPb, Pubkey, SnapshotNodePb,
};
pub use capabilities::{
    ServiceCapabilities, CAP_GET_BOOTSTRAP_INFO, CAP_HEARTBEAT, CAP_MAINNET,
    CAP_PROCESS_POH_CORE_CONFIG, CAP_RESOLVE_POH_CPU_CORE,
};
pub use codec::{DecodeError, Hash32, SnapshotHash, SocketAddr};
pub use error::{ConversionError, Error};
pub use flags::Flags;
