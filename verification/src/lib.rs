//! Authorization of transactions with Ed25519 signatures.
//!
//! Every input of a transaction is authorized by a signature over the
//! transaction's canonical bytes, made with the key whose digest is the
//! address that owns the input. A body carries the authorizations of all its
//! transactions in one flat list, and is verified as a whole.

pub mod address;
pub mod authorization;
pub mod authorizer;
pub mod body;
pub mod error;
pub mod keys;
pub mod laws;
pub mod layout;
pub mod transaction;
pub mod verification;

pub use address::{get_address, Address};
pub use authorization::{Authorization, AuthorizedTransaction};
pub use authorizer::{authorize, authorize_message, check_address};
pub use body::Body;
pub use error::Error;
pub use keys::{Keypair, PublicKey, Signature};
pub use layout::input_owners;
pub use transaction::{OutPoint, Output, Transaction};
pub use verification::{
    authorization_owners, serialize_transactions, verify_authorizations, verify_messages,
};
