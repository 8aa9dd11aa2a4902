pub mod tags;
pub mod instance;
pub mod cloudwatch;
pub mod rds;
pub mod collector;
pub mod publisher;
pub mod config;
