//! Wire representation of ledger transactions, its canonical byte layout, and
//! the lossless mapping between it and a generic domain transaction.
pub mod amount;
pub mod codec;
pub mod convert;
pub mod digest;
pub mod network;
pub mod transaction;

pub use amount::AleoAmount;
pub use codec::{Canonical, CodecError};
pub use convert::{Components, Transaction, VMTransaction};
pub use digest::Digest;
pub use network::Network;
pub use transaction::{SerialTransaction, TransactionId};
