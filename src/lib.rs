//! Reconciliation of an account's on-chain transaction history into rows for a
//! tax-reporting export: paginated retrieval decisions, a deduplicated and
//! time-ordered ledger, removal of transfers between owned accounts, and the
//! conversion of each transaction into zero to two export rows.
pub mod export;
pub mod ledger;
pub mod model;
pub mod pagination;
pub mod rows;
