//! A minimal, verified JSON-RPC client core for querying an Ethereum
//! compatible node's `eth_estimateGas` method.
//!
//! The crate is split in two layers.  The transport layer frames JSON-RPC
//! request bodies and reduces a decoded response envelope to a single
//! `Result`; the domain layer projects a locally constructed transaction
//! into the parameter shape `eth_estimateGas` expects and parses the hex
//! encoded gas quantity that comes back.  HTTP itself is left to the caller:
//! the library hands out complete request bodies and consumes complete
//! response bodies.

pub mod addr;
pub mod gas;
pub mod hexcode;
pub mod numeric;
pub mod rpc;

pub use addr::Address;
pub use gas::Transaction;
pub use gas::data_payload;
pub use gas::estimate_gas_params;
pub use gas::estimate_gas_request;
pub use gas::estimate_gas_response;
pub use gas::gas_from_hex_string;
pub use numeric::U256;
pub use rpc::ClientError;
pub use rpc::Envelope;
pub use rpc::RpcError;
pub use rpc::resolve_envelope;
pub use rpc::rpc_request_body;
