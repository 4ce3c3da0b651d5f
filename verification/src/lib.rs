//! Decision logic of a paper market-making bot for five-minute BTC Up/Down
//! markets: role selection, the one-byte radar signal, the sliding time
//! window behind the volatility estimate, the quoting gate of the executor
//! loop and the request routing of the monitoring dashboard.

pub mod types;
pub mod text;
pub mod config;
pub mod volatility;
pub mod dashboard;
pub mod executor;
