use disk_maid::scan::FileInfo;
use disk_maid::session::{summarize, AppConfig, Command, DiskViz, Message, RootKind, Screen, Status, Unit};

fn viz() -> DiskViz {
    DiskViz::new(AppConfig::default(), "/home/u".to_string())
}

#[test]
fn missing_root_reports_and_does_not_scan() {
    let mut v = viz();
    match v.update(Message::StartScanPressed) {
        Command::CheckRoot(p) => assert_eq!(p, "/home/u"),
        c => panic!("unexpected {:?}", c),
    }
    let cmd = v.update(Message::RootChecked("/home/u".to_string(), RootKind::Missing));
    assert!(matches!(cmd, Command::Nothing));
    assert!(!v.is_scanning);
    assert_eq!(v.status.plain_text(), Some("Error: Path does not exist!".to_string()));
}

#[test]
fn file_root_reports_and_does_not_scan() {
    let mut v = viz();
    let cmd = v.update(Message::RootChecked("/etc/hosts".to_string(), RootKind::NotDirectory));
    assert!(matches!(cmd, Command::Nothing));
    assert!(!v.is_scanning);
    assert_eq!(v.status.plain_text(), Some("Error: Path is not a directory!".to_string()));
}

#[test]
fn directory_root_starts_scan_and_clears_entries() {
    let mut v = viz();
    v.scanned_files.push(FileInfo { path: "old".to_string(), size: 1, is_dir: false });
    match v.update(Message::RootChecked("/data".to_string(), RootKind::Directory)) {
        Command::Scan { root, filter } => {
            assert_eq!(root, "/data");
            assert_eq!(filter, "*");
        }
        c => panic!("unexpected {:?}", c),
    }
    assert!(v.is_scanning);
    assert!(v.scanned_files.is_empty());
    assert!(v.status.plain_text().unwrap().starts_with("Scanning..."));
}

#[test]
fn completed_scan_is_summarized() {
    let mut v = viz();
    let files = vec![
        FileInfo { path: "d".to_string(), size: 0, is_dir: true },
        FileInfo { path: "d/a".to_string(), size: 1500, is_dir: false },
        FileInfo { path: "b".to_string(), size: 500, is_dir: false },
    ];
    v.is_scanning = true;
    v.update(Message::ScanCompleted(Ok(files)));
    assert!(!v.is_scanning);
    assert_eq!(v.scanned_files.len(), 3);
    match v.status {
        Status::ScanComplete { files, dirs, total_size } => {
            assert_eq!((files, dirs, total_size), (2, 1, 2000));
        }
        ref s => panic!("unexpected {:?}", s),
    }
    assert_eq!(v.status.plain_text(), None);
}

#[test]
fn summary_total_saturates() {
    let files = vec![
        FileInfo { path: "a".to_string(), size: u64::MAX, is_dir: false },
        FileInfo { path: "b".to_string(), size: 2, is_dir: false },
    ];
    assert_eq!(summarize(&files), (2, 0, u64::MAX));
    assert_eq!(summarize(&Vec::new()), (0, 0, 0));
}

#[test]
fn scan_error_and_stop() {
    let mut v = viz();
    v.is_scanning = true;
    v.update(Message::ScanCompleted(Err("boom".to_string())));
    assert!(!v.is_scanning);
    assert_eq!(v.status.plain_text(), Some("Scan error: boom".to_string()));
    v.is_scanning = true;
    v.update(Message::StopScanPressed);
    assert!(!v.is_scanning);
    assert_eq!(v.status.plain_text(), Some("Scan stopped.".to_string()));
}

#[test]
fn settings_are_saved_from_buffers() {
    let mut v = viz();
    v.update(Message::ScanFilterChanged("*.jpg".to_string()));
    v.update(Message::UnitChanged(Unit::GB));
    assert_eq!(v.config.scan_filter, "*");
    match v.update(Message::SaveSettingsPressed) {
        Command::SaveConfig(c) => {
            assert_eq!(c.scan_filter, "*.jpg");
            assert_eq!(c.unit, Unit::GB);
        }
        c => panic!("unexpected {:?}", c),
    }
    assert_eq!(v.config.scan_filter, "*.jpg");
    assert_eq!(v.status.plain_text(), Some("Saving settings...".to_string()));
    v.update(Message::ConfigSaved(Ok(())));
    assert_eq!(v.status.plain_text(), Some("Settings saved successfully!".to_string()));
    v.update(Message::ConfigSaved(Err("disk full".to_string())));
    assert_eq!(v.status.plain_text(), Some("Error saving settings: disk full".to_string()));
}

#[test]
fn navigation_and_exit() {
    let mut v = viz();
    assert_eq!(v.title(), "Disk Maid");
    assert_eq!(v.status.plain_text(), Some("Welcome to Disk Maid!".to_string()));
    v.update(Message::ScreenChanged(Screen::Help));
    assert_eq!(v.current_screen, Screen::Help);
    v.update(Message::ScanPathChanged("/tmp".to_string()));
    assert_eq!(v.scan_path_buffer, "/tmp");
    v.update(Message::BackToMainMenu);
    assert_eq!(v.current_screen, Screen::MainMenu);
    assert!(matches!(v.update(Message::ExitApp), Command::Exit));
}

#[test]
fn units_and_defaults() {
    assert_eq!(Unit::KB.bytes_per_unit(), 1024);
    assert_eq!(Unit::MB.bytes_per_unit(), 1024 * 1024);
    assert_eq!(Unit::GB.bytes_per_unit(), 1024 * 1024 * 1024);
    assert_eq!(Unit::KB.label(), "KB");
    assert_eq!(Unit::GB.label(), "GB");
    let c = AppConfig::default();
    assert_eq!(c.scan_filter, "*");
    assert_eq!(c.unit, Unit::MB);
    let d = c.duplicate();
    assert_eq!(d.scan_filter, "*");
}

#[test]
fn result_after_stop_is_ignored() {
    let mut v = viz();
    v.update(Message::RootChecked("/data".to_string(), RootKind::Directory));
    assert!(v.is_scanning);
    v.update(Message::StopScanPressed);
    let files = vec![FileInfo { path: "a".to_string(), size: 3, is_dir: false }];
    let cmd = v.update(Message::ScanCompleted(Ok(files)));
    assert!(matches!(cmd, Command::Nothing));
    assert!(!v.is_scanning);
    assert!(v.scanned_files.is_empty());
    assert_eq!(v.status.plain_text(), Some("Scan stopped.".to_string()));
    v.update(Message::ScanCompleted(Err("late".to_string())));
    assert_eq!(v.status.plain_text(), Some("Scan stopped.".to_string()));
}
