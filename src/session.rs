//! The state of the disk browser and how each user action changes it.
use vstd::prelude::*;
use vstd::string::*;
use crate::scan::{files_view, FileInfo, FileInfoView};

verus! {

/// The unit in which sizes are shown.
#[derive(Debug, Clone, Copy, PartialEq, Eq, Structural)]
pub enum Unit {
    KB,
    MB,
    GB,
}

pub open spec fn unit_bytes(u: Unit) -> nat {
    match u {
        Unit::KB => 1024,
        Unit::MB => 1024 * 1024,
        Unit::GB => 1024 * 1024 * 1024,
    }
}

pub open spec fn unit_label(u: Unit) -> Seq<char> {
    match u {
        Unit::KB => seq!['K', 'B'],
        Unit::MB => seq!['M', 'B'],
        Unit::GB => seq!['G', 'B'],
    }
}

impl Unit {
    /// The number of bytes in one of this unit.
    pub fn bytes_per_unit(&self) -> (r: u64)
        ensures
            r as nat == unit_bytes(*self),
    {
        match self {
            Unit::KB => 1024,
            Unit::MB => 1024 * 1024,
            Unit::GB => 1024 * 1024 * 1024,
        }
    }

    /// The unit's name as shown to the user.
    pub fn label(&self) -> (r: String)
        ensures
            r@ == unit_label(*self),
    {
        let s = match self {
            Unit::KB => "KB",
            Unit::MB => "MB",
            Unit::GB => "GB",
        };
        proof {
            reveal_strlit("KB");
            reveal_strlit("MB");
            reveal_strlit("GB");
        }
        let r = s.to_owned();
        assert(r@ =~= unit_label(*self));
        r
    }
}

/// The settings that persist between runs.
#[derive(Debug, Clone)]
pub struct AppConfig {
    pub scan_filter: String,
    pub unit: Unit,
}

impl AppConfig {
    /// A copy of the settings.
    pub fn duplicate(&self) -> (r: AppConfig)
        ensures
            r.scan_filter@ == self.scan_filter@,
            r.unit == self.unit,
    {
        AppConfig { scan_filter: self.scan_filter.clone(), unit: self.unit }
    }
}

impl Default for AppConfig {
    /// Every file, sizes in megabytes.
    fn default() -> (r: AppConfig)
        ensures
            r.scan_filter@ == seq!['*'],
            r.unit == Unit::MB,
    {
        proof {
            reveal_strlit("*");
        }
        let r = AppConfig { scan_filter: "*".to_owned(), unit: Unit::MB };
        assert(r.scan_filter@ =~= seq!['*']);
        r
    }
}

/// The screen on show.
#[derive(Debug, Clone, Copy, PartialEq, Eq, Structural)]
pub enum Screen {
    MainMenu,
    FileScan,
    Settings,
    Help,
}

/// What a check of the path to scan found there.
#[derive(Debug, Clone, Copy, PartialEq, Eq, Structural)]
pub enum RootKind {
    Missing,
    NotDirectory,
    Directory,
}

/// The line of status shown under each screen.
#[derive(Debug, Clone)]
pub enum Status {
    Welcome,
    PathMissing,
    NotADirectory,
    Scanning,
    Stopped,
    ScanComplete { files: usize, dirs: usize, total_size: u64 },
    ScanError(String),
    Saving,
    Saved,
    SaveError(String),
}

/// The status line as text; `None` for a finished scan, whose total is
/// shown as a decimal in the chosen unit.
pub open spec fn status_text(s: Status) -> Option<Seq<char>> {
    match s {
        Status::Welcome => Some("Welcome to Disk Maid!"@),
        Status::PathMissing => Some("Error: Path does not exist!"@),
        Status::NotADirectory => Some("Error: Path is not a directory!"@),
        Status::Scanning => Some("Scanning... (limited to 10,000 files and 5 levels deep)"@),
        Status::Stopped => Some("Scan stopped."@),
        Status::ScanComplete { .. } => None,
        Status::ScanError(e) => Some("Scan error: "@ + e@),
        Status::Saving => Some("Saving settings..."@),
        Status::Saved => Some("Settings saved successfully!"@),
        Status::SaveError(e) => Some("Error saving settings: "@ + e@),
    }
}

impl Status {
    /// The status line as text, but for a finished scan.
    pub fn plain_text(&self) -> (r: Option<String>)
        ensures
            match r {
                Some(t) => status_text(*self) == Some(t@),
                None => status_text(*self) is None,
            },
    {
        match self {
            Status::Welcome => Some("Welcome to Disk Maid!".to_owned()),
            Status::PathMissing => Some("Error: Path does not exist!".to_owned()),
            Status::NotADirectory => Some("Error: Path is not a directory!".to_owned()),
            Status::Scanning => Some("Scanning... (limited to 10,000 files and 5 levels deep)".to_owned()),
            Status::Stopped => Some("Scan stopped.".to_owned()),
            Status::ScanComplete { .. } => None,
            Status::ScanError(e) => {
                let mut t = "Scan error: ".to_owned();
                t.append(e.as_str());
                Some(t)
            },
            Status::Saving => Some("Saving settings...".to_owned()),
            Status::Saved => Some("Settings saved successfully!".to_owned()),
            Status::SaveError(e) => {
                let mut t = "Error saving settings: ".to_owned();
                t.append(e.as_str());
                Some(t)
            },
        }
    }
}


/// The number of files (not directories) in `s`.
pub open spec fn file_count(s: Seq<FileInfoView>) -> nat
    decreases s.len(),
{
    if s.len() == 0 {
        0
    } else {
        file_count(s.drop_last()) + if s.last().is_dir { 0nat } else { 1nat }
    }
}

/// The number of directories in `s`.
pub open spec fn dir_count(s: Seq<FileInfoView>) -> nat
    decreases s.len(),
{
    if s.len() == 0 {
        0
    } else {
        dir_count(s.drop_last()) + if s.last().is_dir { 1nat } else { 0nat }
    }
}

/// The total size of the files (not directories) in `s`.
pub open spec fn total_file_size(s: Seq<FileInfoView>) -> nat
    decreases s.len(),
{
    if s.len() == 0 {
        0
    } else {
        total_file_size(s.drop_last()) + if s.last().is_dir { 0nat } else { s.last().size as nat }
    }
}

/// `n`, or `u64::MAX` when `n` is larger.
pub open spec fn saturate(n: nat) -> u64 {
    if n > u64::MAX { u64::MAX } else { n as u64 }
}

/// How many files and directories `files` holds, and the total size of the
/// files, held at `u64::MAX` when it is larger.
pub fn summarize(files: &Vec<FileInfo>) -> (r: (usize, usize, u64))
    ensures
        r.0 as nat == file_count(files_view(files@)),
        r.1 as nat == dir_count(files_view(files@)),
        r.2 == saturate(total_file_size(files_view(files@))),
{
    let ghost all = files_view(files@);
    let mut n_files: usize = 0;
    let mut n_dirs: usize = 0;
    let mut total: u64 = 0;
    let mut i: usize = 0;
    assert(all.take(0) =~= Seq::<FileInfoView>::empty());
    while i < files.len()
        invariant
            all == files_view(files@),
            i <= files@.len(),
            n_files as nat == file_count(all.take(i as int)),
            n_dirs as nat == dir_count(all.take(i as int)),
            n_files + n_dirs == i,
            total == saturate(total_file_size(all.take(i as int))),
        decreases files@.len() - i,
    {
        assert(all.take(i + 1).drop_last() =~= all.take(i as int));
        assert(all.take(i + 1).last() == files@[i as int]@);
        if files[i].is_dir {
            n_dirs = n_dirs + 1;
        } else {
            n_files = n_files + 1;
            let size = files[i].size;
            if total > u64::MAX - size {
                total = u64::MAX;
            } else {
                total = total + size;
            }
        }
        i = i + 1;
    }
    assert(all.take(i as int) =~= all);
    (n_files, n_dirs, total)
}

/// What the user or a finished task tells the browser.
#[derive(Debug)]
pub enum Message {
    ScreenChanged(Screen),
    StartScanPressed,
    StopScanPressed,
    BackToMainMenu,
    ExitApp,
    ScanPathChanged(String),
    /// The path to scan was checked: what was found there.
    RootChecked(String, RootKind),
    ScanCompleted(Result<Vec<FileInfo>, String>),
    ScanFilterChanged(String),
    UnitChanged(Unit),
    SaveSettingsPressed,
    ConfigSaved(Result<(), String>),
}

/// The work that the browser asks its host to do after a message.
#[derive(Debug)]
pub enum Command {
    Nothing,
    /// Find out whether this path exists and is a directory, then send
    /// `Message::RootChecked`.
    CheckRoot(String),
    /// Scan `root` with `filter` away from the interactive thread, then send
    /// `Message::ScanCompleted`.
    Scan { root: String, filter: String },
    /// Write the settings, then send `Message::ConfigSaved`.
    SaveConfig(AppConfig),
    Exit,
}

/// The browser: the screen on show, the settings, the entries of the last
/// scan and what the user has typed.
#[derive(Debug)]
pub struct DiskViz {
    pub current_screen: Screen,
    pub config: AppConfig,
    pub status: Status,
    pub scan_filter_buffer: String,
    pub selected_unit: Unit,
    pub is_scanning: bool,
    pub scanned_files: Vec<FileInfo>,
    pub scan_path_buffer: String,
}

impl DiskViz {
    /// The browser at start, on the main menu, with the settings that were
    /// loaded and `start_path` as the path to scan.
    pub fn new(config: AppConfig, start_path: String) -> (r: DiskViz)
        ensures
            r.current_screen == Screen::MainMenu,
            r.config == config,
            r.scan_filter_buffer@ == config.scan_filter@,
            r.selected_unit == config.unit,
            !r.is_scanning,
            r.status == Status::Welcome,
            r.scanned_files@.len() == 0,
            r.scan_path_buffer == start_path,
    {
        let filter = config.scan_filter.clone();
        let unit = config.unit;
        DiskViz {
            current_screen: Screen::MainMenu,
            config,
            status: Status::Welcome,
            scan_filter_buffer: filter,
            selected_unit: unit,
            is_scanning: false,
            scanned_files: Vec::new(),
            scan_path_buffer: start_path,
        }
    }

    pub fn title(&self) -> (r: String)
        ensures
            r@ == "Disk Maid"@,
    {
        "Disk Maid".to_owned()
    }

    /// Applies `message` and says what the host must do next. A scan result
    /// that arrives when no scan is wanted (it was stopped) is ignored.
    pub fn update(&mut self, message: Message) -> (cmd: Command)
        ensures
            match message {
                Message::ScreenChanged(screen) => *final(self) == (DiskViz { current_screen: screen, ..*old(self) })
                    && cmd is Nothing,
                Message::BackToMainMenu => *final(self) == (DiskViz {
                    current_screen: Screen::MainMenu,
                    status: Status::Welcome,
                    ..*old(self)
                }) && cmd is Nothing,
                Message::ExitApp => *final(self) == *old(self) && cmd is Exit,
                Message::StartScanPressed => *final(self) == *old(self) && match cmd {
                    Command::CheckRoot(p) => p@ == old(self).scan_path_buffer@,
                    _ => false,
                },
                Message::RootChecked(path, RootKind::Missing) => *final(self) == (DiskViz {
                    status: Status::PathMissing,
                    ..*old(self)
                }) && cmd is Nothing,
                Message::RootChecked(path, RootKind::NotDirectory) => *final(self) == (DiskViz {
                    status: Status::NotADirectory,
                    ..*old(self)
                }) && cmd is Nothing,
                Message::RootChecked(path, RootKind::Directory) => final(self).scanned_files@.len() == 0
                    && *final(self) == (DiskViz {
                        is_scanning: true,
                        status: Status::Scanning,
                        scanned_files: final(self).scanned_files,
                        ..*old(self)
                    }) && match cmd {
                        Command::Scan { root, filter } => root == path && filter@ == old(self).config.scan_filter@,
                        _ => false,
                    },
                Message::StopScanPressed => *final(self) == (DiskViz {
                    is_scanning: false,
                    status: Status::Stopped,
                    ..*old(self)
                }) && cmd is Nothing,
                Message::ScanPathChanged(p) => *final(self) == (DiskViz { scan_path_buffer: p, ..*old(self) })
                    && cmd is Nothing,
                Message::ScanCompleted(_) if !old(self).is_scanning => *final(self) == *old(self) && cmd is Nothing,
                Message::ScanCompleted(Ok(files)) => *final(self) == (DiskViz {
                    is_scanning: false,
                    status: Status::ScanComplete {
                        files: file_count(files_view(files@)) as usize,
                        dirs: dir_count(files_view(files@)) as usize,
                        total_size: saturate(total_file_size(files_view(files@))),
                    },
                    scanned_files: files,
                    ..*old(self)
                }) && cmd is Nothing,
                Message::ScanCompleted(Err(e)) => *final(self) == (DiskViz {
                    is_scanning: false,
                    status: Status::ScanError(e),
                    ..*old(self)
                }) && cmd is Nothing,
                Message::ScanFilterChanged(f) => *final(self) == (DiskViz { scan_filter_buffer: f, ..*old(self) })
                    && cmd is Nothing,
                Message::UnitChanged(u) => *final(self) == (DiskViz { selected_unit: u, ..*old(self) })
                    && cmd is Nothing,
                Message::SaveSettingsPressed => final(self).config.scan_filter@ == old(self).scan_filter_buffer@
                    && *final(self) == (DiskViz {
                        config: AppConfig { scan_filter: final(self).config.scan_filter, unit: old(self).selected_unit },
                        status: Status::Saving,
                        ..*old(self)
                    }) && match cmd {
                        Command::SaveConfig(c) => c.scan_filter@ == old(self).scan_filter_buffer@
                            && c.unit == old(self).selected_unit,
                        _ => false,
                    },
                Message::ConfigSaved(Ok(())) => *final(self) == (DiskViz { status: Status::Saved, ..*old(self) })
                    && cmd is Nothing,
                Message::ConfigSaved(Err(e)) => *final(self) == (DiskViz { status: Status::SaveError(e), ..*old(self) })
                    && cmd is Nothing,
            },
    {
        match message {
            Message::ScreenChanged(screen) => {
                self.current_screen = screen;
                Command::Nothing
            },
            Message::BackToMainMenu => {
                self.current_screen = Screen::MainMenu;
                self.status = Status::Welcome;
                Command::Nothing
            },
            Message::ExitApp => Command::Exit,
            Message::StartScanPressed => Command::CheckRoot(self.scan_path_buffer.clone()),
            Message::RootChecked(path, kind) => match kind {
                RootKind::Missing => {
                    self.status = Status::PathMissing;
                    Command::Nothing
                },
                RootKind::NotDirectory => {
                    self.status = Status::NotADirectory;
                    Command::Nothing
                },
                RootKind::Directory => {
                    self.is_scanning = true;
                    self.status = Status::Scanning;
                    self.scanned_files = Vec::new();
                    Command::Scan { root: path, filter: self.config.scan_filter.clone() }
                },
            },
            Message::StopScanPressed => {
                self.is_scanning = false;
                self.status = Status::Stopped;
                Command::Nothing
            },
            Message::ScanPathChanged(p) => {
                self.scan_path_buffer = p;
                Command::Nothing
            },
            Message::ScanCompleted(_) if !self.is_scanning => Command::Nothing,
            Message::ScanCompleted(Ok(files)) => {
                self.is_scanning = false;
                let (n_files, n_dirs, total) = summarize(&files);
                self.status = Status::ScanComplete { files: n_files, dirs: n_dirs, total_size: total };
                self.scanned_files = files;
                Command::Nothing
            },
            Message::ScanCompleted(Err(e)) => {
                self.is_scanning = false;
                self.status = Status::ScanError(e);
                Command::Nothing
            },
            Message::ScanFilterChanged(f) => {
                self.scan_filter_buffer = f;
                Command::Nothing
            },
            Message::UnitChanged(u) => {
                self.selected_unit = u;
                Command::Nothing
            },
            Message::SaveSettingsPressed => {
                self.config.scan_filter = self.scan_filter_buffer.clone();
                self.config.unit = self.selected_unit;
                self.status = Status::Saving;
                Command::SaveConfig(self.config.duplicate())
            },
            Message::ConfigSaved(Ok(())) => {
                self.status = Status::Saved;
                Command::Nothing
            },
            Message::ConfigSaved(Err(e)) => {
                self.status = Status::SaveError(e);
                Command::Nothing
            },
        }
    }
}

} // verus!
