pub mod command;
pub mod adb;
pub mod fastboot;
pub mod heimdall;
pub mod device_detector;
