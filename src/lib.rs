//! Running per-key statistics over streams of binary64 observations: a keyed
//! store whose entries keep their samples and a summary (minimum, maximum,
//! last value, count), and the truncated divisor used for mean and variance.
pub mod aggregate;
pub mod store;
pub mod truncation;
pub mod value;
