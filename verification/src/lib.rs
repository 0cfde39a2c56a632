//! A fixed-income valuation engine: given a bond's contractual terms and
//! market observations, it computes cashflow schedules, discount factors,
//! yields, realized returns, forward-implied prices, and overnight-rate swap
//! valuations, plus simple discount pricing for treasury bills.
//!
//! Each computation is a sequential, order-dependent numerical recurrence
//! over a term structure. Monetary amounts and rates are IEEE 754
//! single-precision values carried as their raw bit patterns (`u32`), so
//! every recurrence's exact sequence of operations — its ordering, boundary
//! handling, and day-count choices — is stated in the contracts and checked;
//! the arithmetic itself is performed by the trusted single-operation
//! wrappers in [`fp`]. Calendar dates are plain year/month/day values with
//! verified parsing, stepping, and comparison in [`date`].
pub mod bintree;
pub mod bond;
pub mod callable_bond;
pub mod date;
pub mod fp;
pub mod interest_rate_swap;
pub mod pandl;
pub mod payment;
pub mod rates;
pub mod tbills;
