//! Protocols, configuration and control logic of a two-processor GPS/LoRa
//! tracker.

pub mod ble;
pub mod boot_state;
pub mod bootloader;
pub mod cfgstore;
pub mod cfgxfer;
pub mod esp;
pub mod esplink;
pub mod fwupdate;
pub mod gps;
pub mod io;
pub mod leds;
pub mod link;
pub mod lora;
pub mod node;
pub mod platform;
pub mod position;
pub mod probe;
pub mod radio;
pub mod radiocfg;
pub mod sdcard;
pub mod sdlog;
pub mod text;
pub mod tracker;
pub mod watchdog;
pub mod wire;
