//! Cross-chain message relay core: canonical message encoding and
//! content-addressed identifiers, a log-indexing pipeline, an append-only
//! incremental Merkle accumulator with stable inclusion proofs, and the
//! relay state machine that turns indexed messages into submitted proofs.

pub mod bytes_be;
pub mod erc20_tyt;
pub mod hash;
pub mod indexer;
pub mod merkle;
pub mod message;
pub mod processor;
pub mod relayer;
