//! Verified building blocks of a smart-card client module: strict DER
//! (tag-length-value) decoding of the ASN.1 structures the module handles,
//! EMSA-PSS message encoding for tokens that cannot pad RSA-PSS themselves,
//! and the small value types and rule-list bookkeeping around them.

pub mod der;
pub mod error;
pub mod extract;
pub mod hash;
pub mod ids;
pub mod pss;
pub mod rng;
pub mod rules;
pub mod sequence;
pub mod serial;

pub use error::Error;
