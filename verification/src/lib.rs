//! Core of an ambient-lighting driver: it maps a physical monitor layout to
//! the pixel positions that back each LED, samples a captured frame with a
//! convolution kernel, paces the capture loop, and applies live
//! reconfiguration, all over integer (fixed-point) arithmetic.

pub mod baudrate;
pub mod codec;
pub mod fixed;
pub mod framerate;
pub mod kernel;
pub mod monitor_config;
pub mod monitor_json;
pub mod program_config;
pub mod settings_configurer;
pub mod side;
pub mod worker;
