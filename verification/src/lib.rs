//! The aggregate function `approx_distinct`: an estimate of the number of distinct values of a
//! column, with bounded memory.
//!
//! Columns of integers of at most 16 bits are counted exactly. Any other supported column is
//! fed to a HyperLogLog sketch. The intermediate state of a sketch is its registers, a byte
//! string of fixed width, which other accumulators can merge.

pub mod accumulator;
pub mod accumulators;
pub mod accuracy_laws;
pub mod approx_distinct;
pub mod arrays;
pub mod column_laws;
pub mod content_laws;
pub mod error;
pub mod estimate;
pub mod estimate_laws;
pub mod hashing;
pub mod hyperloglog;
pub mod laws;
pub mod optional;
pub mod plan_laws;
pub mod registers;
pub mod scalar;
pub mod schema;
pub mod sketch_laws;
pub mod small_int;
pub mod text;

pub use accumulator::ApproxDistinctAccumulator;
pub use accumulators::{
    BinaryHLLAccumulator, NumericHLLAccumulator, StringHLLAccumulator, StringViewHLLAccumulator,
};
pub use approx_distinct::{AccumulatorArgs, ApproxDistinct, StateFieldsArgs, Volatility};
pub use arrays::ArrayRef;
pub use error::ApproxDistinctError;
pub use hyperloglog::HyperLogLog;
pub use scalar::{ScalarValue, APPROX_DISTINCT_HLL_STATE_SIZE};
pub use schema::{DataType, Field, TimeUnit};
pub use small_int::ApproxDistinctBitmapWrapper;
