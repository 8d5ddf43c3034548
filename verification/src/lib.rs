//! Ghost keys: hierarchical, self-contained certificates that bind a verifying
//! key to an attestation string and can be checked offline against one master
//! verifying key.

pub mod armor;
pub mod canonical;
pub mod certificate;
pub mod decimal;
pub mod delegate;
pub mod errors;
pub mod gateway;
pub mod ghost_key;
pub mod keys;
pub mod master_key;
pub mod naming;
pub mod payment;
pub mod permissions;
pub mod routes;
pub mod signature;
pub mod tls;
pub mod util;
