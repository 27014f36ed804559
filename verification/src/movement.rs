pub mod report;
pub mod rules;
pub mod step;
