//! Device state and the rules of the background tasks.

pub mod brightness;
pub mod clock;
pub mod manager;
pub mod screen_schedule;
pub mod storage;
pub mod time_sync;
pub mod usb_disk;
