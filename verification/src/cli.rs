//! The command line of `tp7`: its global options and subcommands.
use vstd::prelude::*;

verus! {

/// The parsed command line.
#[derive(Debug)]
pub struct Cli {
    /// Select a TP-7 by serial number.
    pub device: Option<String>,
    /// Write machine-readable JSON output.
    pub json: bool,
    /// Allow commands to switch the device into MTP mode automatically.
    pub auto_connect: bool,
    /// Disable progress output.
    pub no_progress: bool,
    /// How much diagnostic logging to show.
    pub verbose: u8,
    pub command: Command,
}

/// The subcommands.
#[derive(Debug)]
pub enum Command {
    /// List connected TP-7 devices.
    Devices,
    /// Run macOS USB/MTP diagnostics.
    Doctor,
    /// Show TP-7 device and storage status.
    Status,
    /// Switch or validate TP-7 MTP mode.
    Connect,
    /// List files on the TP-7.
    Ls(LsArgs),
    /// Show a recursive file tree.
    Tree(TreeArgs),
    /// Show metadata for one remote object.
    Stat(RemotePathArgs),
    /// Download a file or directory from the TP-7.
    Pull(PullArgs),
    /// Upload a file or directory to the TP-7.
    Push(PushArgs),
    /// Create a remote folder.
    Mkdir(MkdirArgs),
    /// Delete a remote file or folder.
    Rm(RmArgs),
    /// Rename a remote object without moving it.
    Rename(RenameArgs),
    /// Open and close an MTP session cleanly.
    Eject,
}

/// The arguments of `tp7 ls`.
#[derive(Debug)]
pub struct LsArgs {
    pub remote_path: String,
    pub long: bool,
    pub ids: bool,
    pub size: bool,
    pub sort_size: bool,
    pub sort_time: bool,
    pub reverse: bool,
    pub human_readable: bool,
    /// Take the MTP interface over from `ptpcamerad` when it holds it.
    pub take_over: bool,
    pub help: Option<bool>,
}

/// The arguments of `tp7 tree`.
#[derive(Debug)]
pub struct TreeArgs {
    pub remote_path: String,
    pub depth: Option<usize>,
    pub ids: bool,
}

/// A remote path argument.
#[derive(Debug)]
pub struct RemotePathArgs {
    pub remote_path: String,
}

/// The arguments of `tp7 pull`.
#[derive(Debug)]
pub struct PullArgs {
    pub remote_path: String,
    pub local_path: Option<String>,
    pub recursive: bool,
    pub overwrite: bool,
    pub skip_existing: bool,
    pub dry_run: bool,
}

/// The arguments of `tp7 push`.
#[derive(Debug)]
pub struct PushArgs {
    pub local_path: String,
    pub remote_path: String,
    pub recursive: bool,
    pub overwrite: bool,
    pub dry_run: bool,
}

/// The arguments of `tp7 mkdir`.
#[derive(Debug)]
pub struct MkdirArgs {
    pub remote_path: String,
    pub parents: bool,
}

/// The arguments of `tp7 rm`.
#[derive(Debug)]
pub struct RmArgs {
    pub remote_path: String,
    pub recursive: bool,
    pub force: bool,
    pub dry_run: bool,
}

/// The arguments of `tp7 rename`.
#[derive(Debug)]
pub struct RenameArgs {
    pub remote_path: String,
    pub new_name: String,
}

} // verus!
