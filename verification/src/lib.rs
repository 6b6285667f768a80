pub mod anomaly;
pub mod anomaly_storage;
pub mod collector;
pub mod config;
pub mod dashboard;
pub mod float_bits;
pub mod gpu;
pub mod instance;
pub mod logging;
pub mod model;
pub mod process_collector;
pub mod powermetrics;
pub mod process_storage;
pub mod report;
pub mod report_text;
pub mod runtime;
pub mod service;
pub mod storage;
pub mod text;
