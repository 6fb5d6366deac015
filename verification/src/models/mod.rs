pub mod database;
pub mod device;
pub mod device_info;
pub mod distro;
pub mod distro_config;
pub mod installer;
pub mod system_image;
pub mod unlocking_step;
pub mod unlock_guide;
pub mod sync;
