//! Prediction of the addresses at which a minimal forwarding proxy is deployed
//! by a salted deterministic deployment, in the hexadecimal and the Base58Check
//! rendering, with the engines that drive the derivation over batches of salts.

pub mod error;
pub mod hash;
pub mod text;
pub mod codec;
pub mod bytes;
pub mod base58;
pub mod predictor;
pub mod batch;
pub mod search;
pub mod duration;
pub mod pool;
pub mod params;
pub mod dispatch;
pub mod readback;
pub mod gpu;
