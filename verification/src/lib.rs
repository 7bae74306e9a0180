//! Preparation of market-tick tables for charting: choosing the file format,
//! sorting the rows by day and time, sampling every n-th row into labelled
//! points, and laying out the chart.

pub mod error;
pub mod format;
pub mod frame;
pub mod label;
pub mod number;
pub mod order;
pub mod pipeline;
pub mod present;
pub mod sample;
pub mod table;
pub mod unique;

pub use error::PipelineError;
pub use format::FileFormat;
pub use pipeline::{load, prepare, read_from_file, read_outcome, sort_by_time};
pub use label::tick_label;
pub use present::{
    chart_path, chart_width, finite_range, plan_chart, value_bounds, widen_bounds, Backend,
    Layout,
};
pub use sample::{make_label, make_value, sample, Series};
pub use table::{Table, Tick};
