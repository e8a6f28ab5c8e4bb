//! Verified core of a small RPC layer: the analysis of an annotated `impl`
//! block, the plan of the generated interface, the wire framing, and the
//! connection bookkeeping of the servers.
pub mod channels;
pub mod error;
pub mod expand;
pub mod frame;
pub mod model;
pub mod node;
pub mod plan;
pub mod server;

pub use error::RpcError;
pub use postcard;
