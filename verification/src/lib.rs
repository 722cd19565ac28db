//! A toy payments engine: per-client ledgers driven by deposits, withdrawals
//! and the dispute lifecycle, over exact fixed-precision decimal amounts.

pub mod cli;
pub mod error;
pub mod model;
pub mod money;
pub mod processor;
pub mod text;
pub mod theorems;

pub use cli::parse_filepath;
pub use error::EngineError;
pub use model::{ClientAccount, Transaction, TransactionStatus, TransactionType};
pub use money::Money;
pub use processor::process_transactions;
