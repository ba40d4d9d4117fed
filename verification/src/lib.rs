//! Tenant-scoped financial ledger and billing engine for a school
//! administration backend.
//!
//! The core keeps accounts, append-only movements, payables and
//! receivables, installment contracts and transfers, all scoped by a
//! tenant identifier. Money is carried as scaled integers (cents), so
//! the exact-sum rules of the installment generator and the derived
//! account balances hold by construction. Payment instruments (boleto
//! reference codes and the PIX static payload with its CRC16 checksum)
//! are produced by pure encoders.

pub mod money;
pub mod text;
pub mod digits;
pub mod dates;
pub mod pix;
pub mod model;
pub mod auth;
pub mod ledger;
pub mod registry;
pub mod obligations;
pub mod contracts;
pub mod instruments;
pub mod config;
pub mod classes;
pub mod terms;
pub mod teachers;
pub mod guardians;
pub mod platform;
pub mod students;
pub mod reports;
pub mod dashboard;
pub mod admin;
pub mod people;
pub mod school;
pub mod lists;
pub mod ordering;
