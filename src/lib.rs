//! Meeting cost metering: exact cost arithmetic over role rates, lenient
//! clock-time and duration parsing, interval resolution, and the live
//! session state machine.

pub mod calculator;
pub mod commands;
pub mod config;
pub mod error;
pub mod helpers;
pub mod interval;
pub mod models;
pub mod session;
pub mod text;
pub mod time_parser;
