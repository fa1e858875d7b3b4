//! Lending protocol of the tip jar: pools of lender deposits, collateralised
//! loans with utilisation-priced interest, and liquidation of unhealthy loans.
//!
//! Every operation is a verified function from the stored records it reads
//! (and the ledger time) to the records it writes, the token amounts it moves,
//! or the reason the transaction aborts.


pub mod host;
pub mod types;
pub mod lending;

pub use types::{
    Failure, LenderPosition, LendingConfig, LendingError, LendingLoan, LendingPool, LoanStatus,
};
