//! State-bridging and authentication core for an EVM execution layer hosted
//! on an account-based ledger: address mapping, account decoding and caching,
//! transaction decoding, and signature verification.

pub mod types;
pub mod codec;
pub mod txcodec;
pub mod sigverify;
pub mod mapper;
pub mod encode;
pub mod cache;
pub mod invoker;
