//! Per-net-type request builders and reply interpretation.

pub mod sio;
pub mod debug;
pub mod rtt;
pub mod uart;
pub mod usb;
pub mod dfu;
pub mod battery;
pub mod eload;
pub mod gpio;
pub mod scope;
pub mod spi;
pub mod i2c;
pub mod webcam;
pub mod arm;
pub mod solar;
pub mod router;
pub mod wifi;
pub mod ble;
pub mod blufi;
