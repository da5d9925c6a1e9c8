pub mod client;
pub mod issues;
pub mod mr;
pub mod pipelines;
