//! Light-client verification for a proof-of-stake ledger: validator quorum
//! checks, Merkle inclusion proofs, the trusted-state epoch ratchet, the two
//! provable programs built from them, and the routing rules of the proof
//! server.

pub mod assets;
pub mod codec;
pub mod hash;
pub mod ledger;
pub mod merkle;
pub mod output;
pub mod programs;
pub mod server;
pub mod signature;
pub mod stdin;
pub mod trusted_state;
pub mod validator;
