//! The shared state of the device services.

use crate::services::brightness::BrightnessScheduleEntry;
use crate::services::brightness::BrightnessService;
use crate::services::screen_schedule::ScreenScheduleEntry;
use crate::services::screen_schedule::ScreenScheduleService;
use crate::services::storage::StorageService;
use vstd::prelude::*;
use vstd::string::*;

verus! {

/// The state that the protocol handlers and the background tasks share.
pub struct ServicesState {
    pub brightness: BrightnessService,
    pub screen_schedule: ScreenScheduleService,
    pub storage: StorageService,
}

impl ServicesState {
    /// Full brightness, empty schedules, storage under `program_dir`.
    pub fn new(program_dir: String) -> (s: ServicesState)
        ensures
            s.brightness.level() == 100,
            s.brightness.entries() == Seq::<BrightnessScheduleEntry>::empty(),
            s.screen_schedule.entries() == Seq::<ScreenScheduleEntry>::empty(),
            s.screen_schedule.last_state() is None,
            s.storage.dir() == program_dir@,
    {
        ServicesState {
            brightness: BrightnessService::new(),
            screen_schedule: ScreenScheduleService::new(),
            storage: StorageService::new(program_dir),
        }
    }
}

} // verus!
