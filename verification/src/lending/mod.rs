//! Peer-to-peer lending protocol for tip tokens.
//!
//! Lenders deposit tokens into per-token pools to earn interest.
//! Borrowers lock collateral and receive the borrowed tokens immediately.
//! Interest accrues continuously using a utilisation-based rate model.
//! Under-collateralised positions can be liquidated by any caller.
//!
//! # Module layout
//! - `pool`        — deposit / withdraw liquidity, pool state helpers
//! - `loans`       — open / repay loans, interest accrual, health factor
//! - `liquidation` — liquidation of unhealthy loans
//! - `rates`       — interest-rate model
//! - `arith`       — checked 128-bit arithmetic of amounts
//! - `laws`        — properties relating the operations
//! - `guarantees`  — what each operation promises, in the protocol's own terms

pub mod arith;
pub mod guarantees;
pub mod liquidation;
pub mod loans;
pub mod laws;
pub mod pool;
pub mod rates;

use vstd::prelude::*;

verus! {

/// Basis-point denominator (10 000 = 100 %).
pub const BPS_DENOM: u32 = 10_000;

/// Seconds in 365 days, used for annualised rate calculations.
pub const SECONDS_PER_YEAR: u64 = 31_536_000;

/// Health-factor precision multiplier (1 000 000 = 1.0).
pub const HEALTH_FACTOR_PRECISION: i128 = 1_000_000;

/// Scale of a pool's interest index: interest per deposited unit is kept in
/// units of 10^-12.
pub const INTEREST_INDEX_PRECISION: i128 = 1_000_000_000_000;

/// Default collateral ratio: 150 % (15 000 bps).
pub const DEFAULT_COLLATERAL_RATIO_BPS: u32 = 15_000;

/// Default liquidation threshold: 120 % (12 000 bps).
pub const DEFAULT_LIQUIDATION_THRESHOLD_BPS: u32 = 12_000;

/// Default liquidation penalty: 5 % (500 bps).
pub const DEFAULT_LIQUIDATION_PENALTY_BPS: u32 = 500;

/// Default base annual interest rate: 5 % (500 bps).
pub const DEFAULT_BASE_RATE_BPS: u32 = 500;

/// Default utilisation multiplier: 20 % (2 000 bps) extra at 100 % utilisation.
pub const DEFAULT_UTILISATION_MULTIPLIER_BPS: u32 = 2_000;

/// Default protocol fee on interest: 10 % (1 000 bps).
pub const DEFAULT_PROTOCOL_FEE_BPS: u32 = 1_000;

/// Default minimum loan amount.
pub const DEFAULT_MIN_LOAN_AMOUNT: i128 = 100;

/// Default max LTV: 66.67 % (6 667 bps).
pub const DEFAULT_MAX_LTV_BPS: u32 = 6_667;

} // verus!
