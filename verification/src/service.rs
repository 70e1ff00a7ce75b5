//! Decisions the daemon takes around its bus service: where it keeps its
//! database, which front-end program it starts, and whether it keeps running
//! after checking its bus name.

use vstd::prelude::*;

verus! {

/// File name of the front-end program, looked up next to the daemon and
/// otherwise on the search path.
pub const APP_PROGRAM_NAME: &'static str = "pasteharbor-app";

/// Environment variable that names the front-end program to start.
pub const APP_PROGRAM_VARIABLE: &'static str = "PASTEHARBOR_APP";

/// Which program is started as front end.
#[derive(Debug, Clone, Copy, PartialEq, Eq)]
pub enum AppProgram {
    /// The program named by `APP_PROGRAM_VARIABLE`.
    Configured,
    /// `APP_PROGRAM_NAME` in the directory of the daemon's own executable.
    Sibling,
    /// `APP_PROGRAM_NAME`, looked up on the search path.
    OnSearchPath,
}

/// The front end to start: the configured one when the environment names
/// one, else the one installed next to the daemon when it exists, else the
/// one on the search path.
pub fn choose_app_program(configured: bool, sibling_exists: bool) -> (p: AppProgram)
    ensures
        p == if configured {
            AppProgram::Configured
        } else if sibling_exists {
            AppProgram::Sibling
        } else {
            AppProgram::OnSearchPath
        },
{
    if configured {
        AppProgram::Configured
    } else if sibling_exists {
        AppProgram::Sibling
    } else {
        AppProgram::OnSearchPath
    }
}

/// Directory, below a user's home, of the per-user data directories.
pub const HOME_DATA_DIR: &'static str = ".local/share";

/// Directory, inside the data directory, that holds the database.
pub const DATA_DIR_NAME: &'static str = "pasteharbor";

/// File name of the database.
pub const DATABASE_FILE_NAME: &'static str = "pasteharbor.db";

/// The directory under which `DATA_DIR_NAME` is created.
#[derive(Debug, Clone, Copy, PartialEq, Eq)]
pub enum DataDirBase {
    /// The directory named by `XDG_DATA_HOME`.
    XdgDataHome,
    /// `HOME_DATA_DIR` inside the directory named by `HOME`.
    HomeDataDir,
    /// The current directory.
    CurrentDir,
}

/// Where the data directory lies: under `XDG_DATA_HOME` when it is set,
/// else under `HOME_DATA_DIR` in the home directory when `HOME` is set, else
/// in the current directory.
pub fn choose_data_dir_base(xdg_data_home_set: bool, home_set: bool) -> (b: DataDirBase)
    ensures
        b == if xdg_data_home_set {
            DataDirBase::XdgDataHome
        } else if home_set {
            DataDirBase::HomeDataDir
        } else {
            DataDirBase::CurrentDir
        },
{
    if xdg_data_home_set {
        DataDirBase::XdgDataHome
    } else if home_set {
        DataDirBase::HomeDataDir
    } else {
        DataDirBase::CurrentDir
    }
}

/// What the daemon does after checking that it still owns its bus name.
#[derive(Debug, Clone, Copy, PartialEq, Eq)]
pub enum WatchdogAction {
    /// The name is still owned: keep serving.
    KeepServing,
    /// The name was lost: exit so that the service manager restarts the
    /// daemon.
    ExitForRestart,
    /// The check itself failed: exit so that the service manager restarts
    /// the daemon.
    ExitAfterFailedCheck,
}

/// The watchdog's decision, given whether the bus name is still owned, or
/// `None` when the check failed.
pub fn watchdog_decision(name_owned: Option<bool>) -> (a: WatchdogAction)
    ensures
        a == match name_owned {
            Some(true) => WatchdogAction::KeepServing,
            Some(false) => WatchdogAction::ExitForRestart,
            None => WatchdogAction::ExitAfterFailedCheck,
        },
{
    match name_owned {
        Some(true) => WatchdogAction::KeepServing,
        Some(false) => WatchdogAction::ExitForRestart,
        None => WatchdogAction::ExitAfterFailedCheck,
    }
}

} // verus!
