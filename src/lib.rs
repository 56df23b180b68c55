//! A ledger of accounts and investments on arbitrary-precision amounts, the
//! command language that drives it, and a replay of recorded traces that
//! checks the ledger's outcomes against them.

pub mod num;
pub mod model;
pub mod entries;
pub mod bank;
pub mod action;
pub mod laws;
pub mod oracle;
