//! The decision logic of the Logos engine: the framing of its two wire
//! protocols, the parsing of content hashes, the dispatch of engine requests
//! through the SEMA storage plane, and the command line of its daemon.

pub mod command;
pub mod error;
pub mod frame;
pub mod hash;
pub mod nexus;
pub mod protocol;
pub mod relay;
pub mod sema;
pub mod signal;

pub use error::Error;
pub use nexus::NexusPlane;
pub use protocol::{Dispatch, Fetch};
pub use sema::SemaPlane;
pub use signal::SignalPlane;
