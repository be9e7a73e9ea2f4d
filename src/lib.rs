//! Streaming technical-analysis indicators (RSI, NATR) over columns of any type
//! that offers the [`Numeric`] capability, with a candle-aggregation state machine
//! that folds price ticks into fixed-width OHLCV buckets.
pub mod candle;
pub mod column;
pub mod config;
pub mod error;
pub mod fixed;
pub mod integer;
pub mod natr;
pub mod numeric;
pub mod rsi;
pub mod series;

pub use candle::{Candle, CandleRef, CandleSeries};
pub use column::Column;
pub use config::Config;
pub use error::Error;
pub use fixed::Fixed;
pub use natr::{natr, natr_latest, natr_series, NatrResult};
pub use numeric::Numeric;
pub use rsi::{rsi, rsi_latest, rsi_series, RsiResult};
pub use series::Series;
