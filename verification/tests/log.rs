use std::collections::BTreeMap;

use yamato::config::Config;
use yamato::ec::FAN_BIOS;
use yamato::log::{
    cell, default_path, rotated_path, timestamp, LogAsk, LogHeard, Logger, Moment, Record,
    FILE_NAME, HEADER,
};
use yamato::paths::parent;

fn record<'a>(profile: &'a str, applied: Option<u8>) -> Record<'a> {
    Record {
        hottest: Some((0, 61)),
        applied,
        fan_rpm: applied.map(|_| [2100, 1900]),
        mode: "smart",
        profile,
    }
}

#[test]
fn the_history_sits_beside_the_settings_file() {
    let log = default_path(None);
    let settings = Config::default_path(None);
    assert_eq!(parent(&log), parent(&settings));
    assert!(log.ends_with(FILE_NAME));
}

#[test]
fn a_line_has_one_cell_for_every_column() {
    let line = record("Balanced", Some(3)).line_at("2026-08-09T14:03:22");

    assert_eq!(line.matches(',').count(), HEADER.matches(',').count());
    assert_eq!(line, "2026-08-09T14:03:22,0,61,3,2100,1900,smart,Balanced");
}

#[test]
fn firmware_control_is_a_word_and_not_a_number() {
    // 128 in the level column would read as a fan speed, and there is no level
    // 128.
    let line = record("Balanced", Some(FAN_BIOS)).line_at("t");
    assert!(line.contains(",bios,"), "{line}");
}

#[test]
fn a_pass_that_could_not_read_the_controller_leaves_the_cells_empty() {
    let line = Record { hottest: None, applied: None, fan_rpm: None, mode: "bios", profile: "X" }
        .line_at("t");

    assert_eq!(line, "t,,,,,,bios,X");
    assert!(!line.contains(",0,"));
}

#[test]
fn a_profile_name_cannot_shift_the_columns() {
    // Names are whatever somebody typed into the box.
    let line = record("Loud, and proud", Some(3)).line_at("t");
    assert!(line.ends_with("\"Loud, and proud\""), "{line}");

    let line = record("The \"quiet\" one", Some(3)).line_at("t");
    assert!(line.ends_with("\"The \"\"quiet\"\" one\""), "{line}");
    assert_eq!(cell("a\nb"), "\"a\nb\"");
    assert_eq!(cell("plain"), "plain");
}

const LIVE: &str = r"C:\ProgramData\Yamato\yamato-log.csv";
const OLDER: &str = r"C:\ProgramData\Yamato\yamato-log.1.csv";

/// A folder with its files, as a test stages it.
struct Disk {
    folder: bool,
    files: BTreeMap<String, String>,
    open: Option<String>,
}

impl Disk {
    fn new() -> Self {
        Disk { folder: true, files: BTreeMap::new(), open: None }
    }
}

/// Writes one line against a disk.
fn write(log: &mut Logger, disk: &mut Disk, line: &str, max: u64) {
    let mut ask = log.write_line(line.to_string(), max);
    for _ in 0..20 {
        let heard = match ask {
            LogAsk::Folder(_) => LogHeard::Went(disk.folder),
            LogAsk::Open(path) => {
                let size = disk.files.entry(path.clone()).or_default().len() as u64;
                disk.open = Some(path);
                LogHeard::Opened(Some(size))
            }
            LogAsk::Append(text) => {
                let path = disk.open.as_ref().expect("nothing is open");
                disk.files.get_mut(path).unwrap().push_str(&text);
                LogHeard::Went(true)
            }
            LogAsk::Rotate { from, to } => {
                disk.open = None;
                let text = disk.files.remove(&from).expect("there is nothing to rotate");
                disk.files.insert(to, text);
                LogHeard::Went(true)
            }
            LogAsk::Close => {
                disk.open = None;
                return;
            }
            LogAsk::Done => return,
        };
        ask = log.hear(heard);
    }
    panic!("a line did not end");
}

#[test]
fn a_fresh_file_gets_a_header_and_a_reopened_one_does_not() {
    let mut disk = Disk::new();
    let mut log = Logger::new(LIVE.to_string());
    write(&mut log, &mut disk, "first", 1 << 20);
    let mut log = Logger::new(LIVE.to_string());
    write(&mut log, &mut disk, "second", 1 << 20);

    let text = &disk.files[LIVE];
    assert_eq!(text.matches(HEADER).count(), 1, "{text}");
    assert!(text.contains("first") && text.contains("second"));
}

#[test]
fn the_file_rotates_once_and_keeps_exactly_one_generation() {
    // Small enough that a couple of lines pass it.
    let max = (HEADER.len() + 40) as u64;
    let mut disk = Disk::new();
    let mut log = Logger::new(LIVE.to_string());

    for i in 0..40 {
        write(&mut log, &mut disk, &format!("line {i}"), max);
    }

    assert!(!log.is_broken(), "rotation should not have given up");
    let kept = disk.files.get(OLDER).expect("the previous generation was not kept");
    let text = &disk.files[LIVE];

    // The live file starts again with its own header, and neither file is
    // allowed to grow past the limit by more than the line that crossed it.
    assert!(text.starts_with(HEADER), "{text}");
    assert!(kept.starts_with(HEADER), "{kept}");
    assert!(text.len() as u64 <= max + 32, "the live file outgrew its limit");
    assert!(kept.len() as u64 <= max + 32, "the kept file outgrew its limit");
    assert!(
        text.contains("line 39") || kept.contains("line 39"),
        "the newest line was thrown away"
    );

    // And exactly one generation: nothing numbered beyond it.
    assert_eq!(disk.files.len(), 2, "more than one generation was kept");
}

#[test]
fn rotating_replaces_the_previous_generation_rather_than_stacking_up() {
    let mut disk = Disk::new();
    disk.files.insert(OLDER.to_string(), "an older generation".to_string());
    let max = (HEADER.len() + 20) as u64;
    let mut log = Logger::new(LIVE.to_string());
    for i in 0..20 {
        write(&mut log, &mut disk, &format!("line {i}"), max);
    }
    let kept = &disk.files[OLDER];
    assert!(!kept.contains("an older generation"), "the old file was not replaced");
}

#[test]
fn a_failure_turns_logging_off_for_the_session_rather_than_retrying() {
    let mut disk = Disk::new();
    disk.folder = false;
    let mut log = Logger::new(LIVE.to_string());

    write(&mut log, &mut disk, "first", 1 << 20);
    assert!(log.is_broken(), "a folder that cannot be made should have given up");

    // And it stays given up: nothing reopens on a later pass.
    disk.folder = true;
    for _ in 0..5 {
        write(&mut log, &mut disk, "again", 1 << 20);
    }
    assert!(log.is_broken());
    assert!(disk.files.is_empty());
}

#[test]
fn the_generation_keeps_the_extension_a_spreadsheet_knows() {
    assert_eq!(
        rotated_path(r"C:\ProgramData\Yamato\yamato-log.csv"),
        r"C:\ProgramData\Yamato\yamato-log.1.csv"
    );
    assert_eq!(rotated_path("plain"), "plain.1");
}

#[test]
fn a_timestamp_is_ordinary_iso_8601() {
    let stamp = timestamp(&Moment { year: 2026, month: 8, day: 9, hour: 4, minute: 3, second: 2 });

    assert_eq!(stamp.len(), 19, "{stamp}");
    assert_eq!(stamp.as_bytes()[10], b'T');
    assert!(stamp.starts_with("20"), "{stamp}");
    assert_eq!(stamp, "2026-08-09T04:03:02");
}
