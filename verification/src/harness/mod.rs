//! The test harness: what a test is, which of its values get checked, and
//! how results are judged.

pub mod test;
pub mod vals;
pub mod run;
pub mod report;
pub mod check;
pub mod read;
pub mod human;
pub mod matrix;
