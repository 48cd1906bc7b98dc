//! Proof-of-human certificate authority: keys, certificates, the server's
//! session bookkeeping and the decisions it takes on client requests.

pub mod table;
pub mod session;
pub mod hex;
pub mod crypto;
pub mod keys;
pub mod client;
pub mod server;
pub mod poh;
pub mod pgp;
pub mod pylib;
