//! A small real-time data service: named plots hold time series, each time
//! series holds dated numeric samples.  Clients read and write them through
//! JSON-RPC-shaped frames; this crate holds the storage engine, the data
//! model with its wire codec, and the request dispatcher.

pub mod dao;
pub mod data_model;
pub mod errors;
pub mod json_handler;
pub mod json_text;
pub mod json_value;
pub mod time_point;
