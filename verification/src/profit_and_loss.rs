//! Realized profit and loss: the record and its report.

pub mod aggregate;
pub mod layout;
pub mod manager;
pub mod period;
pub mod record;
pub mod totals;
