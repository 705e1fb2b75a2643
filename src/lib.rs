//! A single-pass transaction ledger: deposits, withdrawals and the dispute
//! lifecycle (dispute, resolve, chargeback), replayed per client.
pub mod client_data;
pub mod data_types;
pub mod decimal;
pub mod laws;
pub mod transactions;
