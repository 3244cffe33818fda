//! Protocol decoding, form handling and monitor state for a terminal monitor of
//! MQTT, Modbus TCP, IEC 60870-5-104, OPC UA and serial-port traffic.

pub mod text;
pub mod floatfmt;
pub mod iec104;
pub mod mode;
pub mod config;
pub mod state;
pub mod feed;
pub mod modbus;
pub mod mqtt;
pub mod opcua;
pub mod serial;
pub mod ui;
pub mod control;
pub mod form_keys;
pub mod monitor_keys;
pub mod line_keys;
pub mod modbus_keys;
pub mod yank_keys;
pub mod dispatch;
pub mod topic_counts;
