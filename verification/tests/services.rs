use huidu_player::services::brightness::{dim_pixels, BrightnessScheduleEntry, BrightnessService};
use huidu_player::services::clock::{ClockFormat, WallClock};
use huidu_player::services::manager::ServicesState;
use huidu_player::services::screen_schedule::{covers, ScreenScheduleEntry, ScreenScheduleService};
use huidu_player::services::storage::StorageService;
use huidu_player::services::time_sync::{SyncOutcome, TimeSyncService};
use huidu_player::services::usb_disk::{
    find_usb_program_paths, has_xml_extension, load_from_usb, mount_points, DirListing, UsbDiskService,
    UsbError,
};

#[test]
fn brightness_is_clamped() {
    let mut b = BrightnessService::new();
    assert_eq!(b.get_level(), 100);
    b.set_level(200);
    assert_eq!(b.get_level(), 100);
    b.set_level(101);
    assert_eq!(b.get_level(), 100);
    b.set_level(100);
    assert_eq!(b.get_level(), 100);
    b.set_level(37);
    assert_eq!(b.get_level(), 37);
    b.set_level(0);
    assert_eq!(b.get_level(), 0);
}

#[test]
fn half_brightness_halves_a_red_pixel() {
    let mut b = BrightnessService::new();
    b.set_level(50);
    let mut pixel = [255u8, 0, 0, 255];
    b.apply_to_pixels(&mut pixel);
    assert_eq!(pixel, [127, 0, 0, 255]);
}

#[test]
fn dimming_leaves_alpha_and_partial_pixels() {
    let mut data = [100u8, 200, 255, 77, 10, 20, 30, 40, 90, 91];
    dim_pixels(&mut data, 10);
    assert_eq!(data, [10, 20, 25, 77, 1, 2, 3, 40, 90, 91]);
    let mut data = [100u8, 200, 255, 77];
    dim_pixels(&mut data, 100);
    assert_eq!(data, [100, 200, 255, 77]);
    dim_pixels(&mut data, 255);
    assert_eq!(data, [100, 200, 255, 77]);
    dim_pixels(&mut data, 0);
    assert_eq!(data, [0, 0, 0, 77]);
    dim_pixels(&mut data[..0], 5);
}

fn entry(hour: u8, minute: u8, level: u8) -> BrightnessScheduleEntry {
    BrightnessScheduleEntry { hour, minute, level }
}

#[test]
fn brightness_schedule_picks_the_last_entry_that_is_due() {
    let mut b = BrightnessService::new();
    b.check_schedule_at(600);
    assert_eq!(b.get_level(), 100);
    b.set_schedule(vec![entry(6, 0, 80), entry(18, 30, 30), entry(22, 0, 250)]);
    assert_eq!(b.get_schedule().len(), 3);
    b.check_schedule_at(6 * 60);
    assert_eq!(b.get_level(), 80);
    b.check_schedule_at(18 * 60 + 29);
    assert_eq!(b.get_level(), 80);
    b.check_schedule_at(18 * 60 + 30);
    assert_eq!(b.get_level(), 30);
    // a level above 100 is clamped
    b.check_schedule_at(23 * 60);
    assert_eq!(b.get_level(), 100);
    // before the first entry the last one holds, from the day before
    b.set_level(5);
    b.check_schedule_at(5 * 60 + 59);
    assert_eq!(b.get_level(), 100);
    // the latest time that is due decides, not the order of the list
    b.set_schedule(vec![entry(12, 0, 40), entry(8, 0, 20)]);
    b.check_schedule_at(13 * 60);
    assert_eq!(b.get_level(), 40);
    b.check_schedule_at(11 * 60 + 59);
    assert_eq!(b.get_level(), 20);
    // before any entry is due, the last entry of the list holds
    b.check_schedule_at(7 * 60 + 59);
    assert_eq!(b.get_level(), 20);
    b.set_schedule(vec![entry(10, 0, 50), entry(8, 0, 30)]);
    b.check_schedule_at(12 * 60);
    assert_eq!(b.get_level(), 50);
    // of two entries with the same time the later one in the list holds
    b.set_schedule(vec![entry(9, 0, 11), entry(7, 0, 70), entry(9, 0, 22), entry(8, 0, 33)]);
    b.check_schedule_at(9 * 60);
    assert_eq!(b.get_level(), 22);
    b.check_schedule_at(8 * 60 + 59);
    assert_eq!(b.get_level(), 33);
    b.check_schedule_at(0);
    assert_eq!(b.get_level(), 33);
    b.check_schedule();
    assert!([11u8, 22, 33, 70].contains(&b.get_level()));
}

fn on(on_time: &str, off_time: &str, days: &str) -> ScreenScheduleEntry {
    ScreenScheduleEntry {
        on_time: on_time.to_string(),
        off_time: off_time.to_string(),
        days: days.to_string(),
    }
}

#[test]
fn screen_schedule_covers_its_hours_and_days() {
    let e = on("08:00:00", "18:00:00", "Mon,Tue,Wed");
    assert!(covers(&e, "08:00:00", "Mon"));
    assert!(covers(&e, "17:59:59", "Wed"));
    assert!(!covers(&e, "18:00:00", "Mon"));
    assert!(!covers(&e, "07:59:59", "Mon"));
    assert!(!covers(&e, "12:00:00", "Sun"));
    // an entry holds on the days that it lists, and on no others
    let no_day = on("00:00:00", "23:59:59", "");
    assert!(!covers(&no_day, "12:00:00", "Sun"));
    let week = on("00:00:00", "23:59:59", "Mon,Tue,Wed,Thu,Fri,Sat,Sun");
    assert!(covers(&week, "12:00:00", "Sun"));
    assert!(covers(&week, "00:00:00", "Thu"));
    assert!(!covers(&week, "23:59:59", "Sun"));
}

#[test]
fn screen_schedule_asks_only_when_it_has_entries() {
    let mut s = ScreenScheduleService::new();
    assert_eq!(s.should_be_on_at("12:00:00", "Mon"), None);
    assert_eq!(s.should_be_on(), None);
    s.set_schedule(vec![
        on("08:00:00", "12:00:00", "Sat"),
        on("13:00:00", "14:00:00", ""),
        on("15:00:00", "16:00:00", "Sat,Sun"),
    ]);
    assert_eq!(s.get_schedule().len(), 3);
    assert_eq!(s.should_be_on_at("09:00:00", "Sat"), Some(true));
    assert_eq!(s.should_be_on_at("09:00:00", "Sun"), Some(false));
    assert_eq!(s.should_be_on_at("13:30:00", "Sun"), Some(false));
    assert_eq!(s.should_be_on_at("15:30:00", "Sun"), Some(true));
    assert_eq!(s.should_be_on_at("12:30:00", "Sat"), Some(false));
    assert!(s.should_be_on().is_some());
    // a schedule whose entries list no day keeps the screen off
    s.set_schedule(vec![on("00:00:00", "23:59:59", "")]);
    assert_eq!(s.should_be_on_at("12:00:00", "Mon"), Some(false));
}

#[test]
fn player_is_told_only_of_changes() {
    let mut s = ScreenScheduleService::new();
    assert!(s.note(true));
    assert!(!s.note(true));
    assert!(s.note(false));
    assert!(!s.note(false));
    s.set_schedule(vec![]);
    assert!(s.note(false));
}

#[test]
fn clock_reading_is_written_out() {
    let t = WallClock { year: 2024, month: 2, day: 29, hour: 15, minute: 4, second: 5 };
    assert!(t.is_valid());
    assert_eq!(t.minutes(), 904);
    assert_eq!(t.format(ClockFormat::Stamp), "2024-02-29 15:04:05");
    assert_eq!(t.format(ClockFormat::Time), "15:04:05");
    assert_eq!(t.format(ClockFormat::TimeShort), "15:04");
    assert_eq!(t.format(ClockFormat::TimeHalfDay), "03:04:05 PM");
    assert_eq!(t.format(ClockFormat::TimeHalfDayShort), "03:04 PM");
    assert_eq!(t.format(ClockFormat::DateYearFirst), "2024/02/29");
    assert_eq!(t.format(ClockFormat::DateMonthFirst), "02/29/2024");
    assert_eq!(t.format(ClockFormat::DateDayFirst), "29/02/2024");
    assert_eq!(t.format(ClockFormat::DateNamedMonth), "Feb 29, 2024");
    assert_eq!(t.format(ClockFormat::DateDayNamedMonth), "29 Feb, 2024");
    assert_eq!(t.format(ClockFormat::WeekdayName), "Thursday");
    assert_eq!(t.format(ClockFormat::WeekdayShort), "Thu");
    assert_eq!(ClockFormat::Stamp.pattern(), "%Y-%m-%d %H:%M:%S");
}

#[test]
fn clock_readings_that_are_no_dates() {
    let ok = WallClock { year: 2023, month: 12, day: 31, hour: 23, minute: 59, second: 59 };
    assert!(ok.is_valid());
    assert!(!WallClock { day: 32, ..ok }.is_valid());
    assert!(!WallClock { month: 13, ..ok }.is_valid());
    assert!(!WallClock { month: 0, ..ok }.is_valid());
    assert!(!WallClock { day: 0, ..ok }.is_valid());
    assert!(!WallClock { hour: 24, ..ok }.is_valid());
    assert!(!WallClock { minute: 60, ..ok }.is_valid());
    assert!(!WallClock { second: 60, ..ok }.is_valid());
    assert!(!WallClock { month: 2, day: 29, ..ok }.is_valid());
    assert!(WallClock { year: 2000, month: 2, day: 29, ..ok }.is_valid());
    assert!(!WallClock { year: 1900, month: 2, day: 29, ..ok }.is_valid());
    assert!(WallClock { year: -4, month: 2, day: 29, ..ok }.is_valid());
    assert!(!WallClock { month: 4, day: 31, ..ok }.is_valid());
    assert!(!WallClock { year: 262143, ..ok }.is_valid());
    assert!(WallClock::now().is_valid());
}

#[test]
fn services_start_with_full_brightness() {
    let s = ServicesState::new("dir".to_string());
    assert_eq!(s.brightness.get_level(), 100);
    assert!(s.brightness.get_schedule().is_empty());
    assert!(s.screen_schedule.get_schedule().is_empty());
    assert_eq!(s.storage.program_dir(), "dir");
    assert_eq!(StorageService::program_file_name(), "current_program.xml");
}

#[test]
fn time_sync_commands() {
    let c = TimeSyncService::sync_once();
    assert_eq!(c.program, "ntpdate");
    assert_eq!(c.args, vec!["-u", "pool.ntp.org"]);
    assert!(TimeSyncService::after_sync(SyncOutcome::Synced).is_none());
    assert!(TimeSyncService::after_sync(SyncOutcome::Unavailable).is_none());
    let c = TimeSyncService::after_sync(SyncOutcome::Failed).unwrap();
    assert_eq!(c.program, "timedatectl");
    assert_eq!(c.args, vec!["set-ntp", "true"]);
    let c = TimeSyncService::set_time("2024-01-02 03:04:05");
    assert_eq!(c.program, "date");
    assert_eq!(c.args, vec!["-s", "2024-01-02 03:04:05"]);
}

#[test]
fn xml_files_are_recognised() {
    assert!(has_xml_extension("program.xml"));
    assert!(has_xml_extension("a.xml"));
    assert!(has_xml_extension("a.b.xml"));
    assert!(has_xml_extension("..xml"));
    assert!(!has_xml_extension(".xml"));
    assert!(!has_xml_extension("xml"));
    assert!(!has_xml_extension("a.XML"));
    assert!(!has_xml_extension("a.xml.bak"));
    assert!(!has_xml_extension(""));
}

#[test]
fn media_with_programs_are_found() {
    let names = |n: &[&str]| n.iter().map(|s| s.to_string()).collect::<Vec<_>>();
    assert_eq!(
        load_from_usb(&names(&["a.png", "b.xml", "c.txt", "program.xml"])),
        Ok(names(&["b.xml", "program.xml"]))
    );
    assert_eq!(load_from_usb(&names(&["a.png"])), Err(UsbError::NoProgramFiles));
    assert_eq!(load_from_usb(&names(&[])), Err(UsbError::NoProgramFiles));
    let listings = vec![
        DirListing { path: "/mnt/usb/one".to_string(), files: names(&["a.png"]) },
        DirListing { path: "/mnt/usb/two".to_string(), files: names(&["program.xml"]) },
        DirListing { path: "/media/usb/three".to_string(), files: names(&["x.xml", "y.xml"]) },
        DirListing { path: "/media/usb/four".to_string(), files: names(&[]) },
    ];
    assert_eq!(find_usb_program_paths(&listings), names(&["/mnt/usb/two", "/media/usb/three"]));
    assert_eq!(
        mount_points(),
        names(&["/mnt/usb", "/media/usb", "/media/usb0", "/run/media", "/mnt/sdcard"])
    );
}

#[test]
fn medium_is_loaded_once_until_it_is_gone() {
    let mut watch = UsbDiskService::new();
    assert!(watch.should_load("/mnt/usb/a"));
    watch.loaded("/mnt/usb/a".to_string());
    assert!(!watch.should_load("/mnt/usb/a"));
    assert!(watch.should_load("/mnt/usb/b"));
    watch.scanned(1);
    assert!(!watch.should_load("/mnt/usb/a"));
    watch.scanned(0);
    assert!(watch.should_load("/mnt/usb/a"));
}
