//! A claim-staking ledger: participants publish posts by depositing a fixed
//! fee, and others back or challenge a post by staking value on one of its
//! two sides. Every operation is all-or-nothing and keeps the value held for
//! a post equal to its fee plus all stakes placed on it.

pub mod authority;
pub mod error;
pub mod identity;
pub mod laws;
pub mod ledger;
pub mod model;
pub mod post;
pub mod program;
pub mod transfer;
pub mod vault;

pub use authority::{authorize, Operation};
pub use error::{ErrorKind, LedgerError, TransferFailure};
pub use identity::AccountId;
pub use ledger::Ledger;
pub use post::{Post, PostStatus, RecordId, Side, StakeRecord};
pub use program::{initialize_post, stake, InitializePost, Stake};
pub use transfer::{MemoryBank, TransferPrimitive};
pub use vault::Vault;
