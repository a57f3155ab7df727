//! An SFTP version 3 server library.
//!
//! The crate speaks the SSH File Transfer Protocol (version 3) over an
//! already-authenticated, ordered byte stream.  It provides:
//!
//! - the binary wire codec for every request and response packet and for the
//!   composite values they carry (attributes, open flags, extension records),
//!   with a machine-checked proof that decoding inverts encoding;
//! - the request engine: per-client handle allocation, handle-kind checking,
//!   and the mapping from backend failures to wire status codes;
//! - the abstract storage-backend contract (`Fs`) that the engine is written
//!   against, so that any storage implementation can be plugged in.
//!
//! Transport security and the concrete filesystem are deliberately outside
//! this crate: a caller feeds frames in and sends the returned frames back.

pub mod types;
pub mod wire;
pub mod codec;
pub mod packets;
pub mod handles;
pub mod engine;
