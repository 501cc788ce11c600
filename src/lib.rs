//! Order-based statistics for two-sample bootstrap comparisons.
//!
//! Sample values are 64-bit IEEE-754 numbers. The library never does
//! floating-point arithmetic itself: it works on the bit pattern of each
//! value, mapped to an unsigned key whose integer order is the numeric order
//! of the values (see `order`). Everything that depends only on that order
//! (ranks, medians, percentiles of bootstrap statistics, test verdicts, the
//! strength of a correlation) is computed and verified here, as are the
//! resampling draws, the request checks and the text handling around numbers.

pub mod decide;
pub mod order;
pub mod percentile;
pub mod rank;
pub mod request;
pub mod resample;
pub mod text;

pub use decide::{
    classify_correlation, f_test_layout, is_significant, test_outcome, BoundsShown, Correlation,
    FTestLayout, LargerSpread, TailMode, TestOutcome, Verdict,
};
pub use order::{at_most, bits_of_key, less_than, order_key};
pub use percentile::{
    bootstrap_result, median_key, min_max, percentiles, BootstrapResult, Percentiles,
};
pub use rank::rankify;
pub use request::{check_request, RequestError};
pub use resample::resample_indices;
pub use text::{number_style, split_fields, tidy_number, NumberStyle};
