//! Proof-of-work challenge solving: hexadecimal target decoding, the digest
//! ordering predicate, and a striding nonce search whose every answer is
//! proved to satisfy the predicate.
pub mod hex;
pub mod predicate;
pub mod search;

pub use hex::{decode_hex, encode_hex};
pub use predicate::verify_nonce;
pub use search::{available_workers, ChallengeError, ChallengeResponse, SearchPlan, SearchStep};
