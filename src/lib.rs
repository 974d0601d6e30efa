//! Reconstruction of a confirmed transaction's economic view (who paid whom,
//! the change, the fee) from chain data that the caller has already fetched
//! and decoded, and the flat text report of that view.
pub mod model;
pub mod report;
pub mod resolver;
