//! Business metrics reporting: aggregation of metric records into a summary,
//! trend and comparison views, and the cell layout of the exported workbook.
//!
//! Every quantity is an exact fixed-point amount, a whole number of
//! millionths, so that sums and means are stated and proved over integers.

pub mod entropy;
pub mod names;
pub mod fixed;
pub mod name_map;
pub mod data_models;
pub mod sample;
pub mod summary;
pub mod draws;
pub mod data_processing;
pub mod sheet;
pub mod report_generator;
