//! The ESP32-C6, the BLE face of the board: it serves the GPS service,
//! caches what the WIO-E5 reports over the UART link, keeps the settings
//! that survive sleep and power loss, forwards configuration and firmware to
//! the WIO-E5, and decides when to sleep.

pub mod ack;
pub mod address;
pub mod bulk;
pub mod config;
pub mod heartbeat;
pub mod led;
pub mod persist;
pub mod requests;
pub mod serve;
pub mod session;
pub mod state;
pub mod usb;
