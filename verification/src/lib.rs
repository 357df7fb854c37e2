//! A status line assembled from independently scheduled producers.
//!
//! Each producer samples one metric on its own interval and publishes the
//! rendered fragment under its name. The aggregator keeps the latest
//! fragment of every producer and renders them, in a configured order,
//! into one line.
pub mod aggregator;
pub mod cadence;
pub mod clock;
pub mod decimal;
pub mod format;
pub mod layout;
pub mod producer;
pub mod signal;
pub mod supervisor;
