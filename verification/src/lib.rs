//! A pluggable entropy framework: byte sources behind one trait, an XOR
//! stream cipher over them, and a statistical randomness-quality engine
//! whose exact bit- and byte-level statistics are verified.

pub mod bits;
pub mod crypto;
pub mod entropy;
pub mod learn;
pub mod metrics;
pub mod nist;

pub use crypto::StreamCipher;
pub use entropy::EntropySource;
pub use entropy::MockEntropy;
pub use entropy::SystemEntropy;
pub use metrics::FrequencyTable;
pub use nist::NistTests;
