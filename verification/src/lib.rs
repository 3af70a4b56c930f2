//! Verified core of a command-line tool for the Teenage Engineering TP-7 recorder:
//! device selection, MIDI mode switching messages, remote path handling, transfers,
//! the WebDAV mount server and the reports that every command produces.
use vstd::prelude::*;

pub mod cli;
pub mod connect;
pub mod device;
pub mod doctor;
pub mod eject;
pub mod error;
pub mod local_path;
pub mod ls;
pub mod midi;
pub mod mount;
pub mod mtp;
pub mod mtp_session;
pub mod order;
pub mod output;
pub mod pull;
pub mod push;
pub mod remote;
pub mod render;
pub mod stat;
pub mod status;
pub mod text;
pub mod tree;
pub mod usb_owner;
pub mod write_ops;

use crate::cli::{Cli, Command};
use crate::error::AppError;
use crate::output::{LsDisplayOptions, LsSort};
use crate::pull::PullOptions;
use crate::push::PushOptions;

verus! {

/// What a command line asks the tool to do, with every option resolved.
#[derive(Debug)]
pub enum Invocation {
    Devices { serial: Option<String>, json: bool },
    Doctor { serial: Option<String>, json: bool },
    Status { serial: Option<String>, json: bool },
    Connect { serial: Option<String>, json: bool },
    Ls {
        serial: Option<String>,
        auto_connect: bool,
        remote_path: String,
        take_over: bool,
        json: bool,
        display: LsDisplayOptions,
    },
    Tree {
        serial: Option<String>,
        auto_connect: bool,
        remote_path: String,
        depth: Option<usize>,
        json: bool,
        ids: bool,
    },
    Stat { serial: Option<String>, auto_connect: bool, remote_path: String, json: bool },
    Pull {
        serial: Option<String>,
        auto_connect: bool,
        remote_path: String,
        local_path: Option<String>,
        options: PullOptions,
        json: bool,
    },
    Push {
        serial: Option<String>,
        auto_connect: bool,
        local_path: String,
        remote_path: String,
        options: PushOptions,
        json: bool,
    },
    Mkdir {
        serial: Option<String>,
        auto_connect: bool,
        remote_path: String,
        parents: bool,
        json: bool,
    },
    Rm {
        serial: Option<String>,
        auto_connect: bool,
        remote_path: String,
        recursive: bool,
        force: bool,
        dry_run: bool,
        json: bool,
    },
    Rename {
        serial: Option<String>,
        auto_connect: bool,
        remote_path: String,
        new_name: String,
        json: bool,
    },
    Eject { serial: Option<String>, auto_connect: bool, json: bool },
}

/// Progress is shown unless disabled, unless the output is JSON, and not for dry runs.
pub open spec fn spec_progress(no_progress: bool, json: bool, dry_run: bool) -> bool {
    !no_progress && !json && !dry_run
}

/// Whether `inv` is what the command line `c` asks for.
pub open spec fn is_invocation(inv: Invocation, c: Cli) -> bool {
    let serial = c.device;
    match c.command {
        Command::Devices => inv == (Invocation::Devices { serial, json: c.json }),
        Command::Doctor => inv == (Invocation::Doctor { serial, json: c.json }),
        Command::Status => inv == (Invocation::Status { serial, json: c.json }),
        Command::Connect => inv == (Invocation::Connect { serial, json: c.json }),
        Command::Ls(a) => inv == (Invocation::Ls {
            serial,
            auto_connect: c.auto_connect,
            remote_path: a.remote_path,
            take_over: a.take_over,
            json: c.json,
            display: LsDisplayOptions {
                long: a.long,
                ids: a.ids,
                size: a.size,
                human_readable: a.human_readable,
                sort: if a.sort_size {
                    LsSort::Size
                } else if a.sort_time {
                    LsSort::Time
                } else {
                    LsSort::Name
                },
                reverse: a.reverse,
            },
        }),
        Command::Tree(a) => inv == (Invocation::Tree {
            serial,
            auto_connect: c.auto_connect,
            remote_path: a.remote_path,
            depth: a.depth,
            json: c.json,
            ids: a.ids,
        }),
        Command::Stat(a) => inv == (Invocation::Stat {
            serial,
            auto_connect: c.auto_connect,
            remote_path: a.remote_path,
            json: c.json,
        }),
        Command::Pull(a) => inv == (Invocation::Pull {
            serial,
            auto_connect: c.auto_connect,
            remote_path: a.remote_path,
            local_path: a.local_path,
            options: PullOptions {
                recursive: a.recursive,
                overwrite: a.overwrite,
                skip_existing: a.skip_existing,
                dry_run: a.dry_run,
                progress: spec_progress(c.no_progress, c.json, a.dry_run),
            },
            json: c.json,
        }),
        Command::Push(a) => inv == (Invocation::Push {
            serial,
            auto_connect: c.auto_connect,
            local_path: a.local_path,
            remote_path: a.remote_path,
            options: PushOptions {
                recursive: a.recursive,
                overwrite: a.overwrite,
                dry_run: a.dry_run,
                progress: spec_progress(c.no_progress, c.json, a.dry_run),
            },
            json: c.json,
        }),
        Command::Mkdir(a) => inv == (Invocation::Mkdir {
            serial,
            auto_connect: c.auto_connect,
            remote_path: a.remote_path,
            parents: a.parents,
            json: c.json,
        }),
        Command::Rm(a) => inv == (Invocation::Rm {
            serial,
            auto_connect: c.auto_connect,
            remote_path: a.remote_path,
            recursive: a.recursive,
            force: a.force,
            dry_run: a.dry_run,
            json: c.json,
        }),
        Command::Rename(a) => inv == (Invocation::Rename {
            serial,
            auto_connect: c.auto_connect,
            remote_path: a.remote_path,
            new_name: a.new_name,
            json: c.json,
        }),
        Command::Eject => inv == (Invocation::Eject {
            serial,
            auto_connect: c.auto_connect,
            json: c.json,
        }),
    }
}

/// An invocation keeps the safety flags of its command line as they were given: a dry
/// run stays a dry run, and removal, recursion, force and overwriting happen only when
/// asked for.
pub proof fn lemma_invocation_keeps_safety_flags(inv: Invocation, c: Cli)
    requires
        is_invocation(inv, c),
    ensures
        c.command matches Command::Rm(a) ==> (inv matches Invocation::Rm {
            remote_path,
            recursive,
            force,
            dry_run,
            ..
        } && remote_path == a.remote_path && recursive == a.recursive && force == a.force
            && dry_run == a.dry_run),
        c.command matches Command::Pull(a) ==> (inv matches Invocation::Pull { options, .. }
            && options.dry_run == a.dry_run && options.overwrite == a.overwrite
            && options.skip_existing == a.skip_existing && options.recursive == a.recursive),
        c.command matches Command::Push(a) ==> (inv matches Invocation::Push { options, .. }
            && options.dry_run == a.dry_run && options.overwrite == a.overwrite
            && options.recursive == a.recursive),
        c.command matches Command::Mkdir(a) ==> (inv matches Invocation::Mkdir { parents, .. }
            && parents == a.parents),
{
}

/// What the command line asks for; `ls` refuses to sort by size and time at once.
pub fn run(cli: Cli) -> (res: Result<Invocation, AppError>)
    ensures
        (cli.command matches Command::Ls(a) && a.sort_size && a.sort_time) ==> (res matches Err(
            AppError::InvalidArguments { message },
        ) && message@ == "choose either --sort-size or --sort-time"@),
        !(cli.command matches Command::Ls(a) && a.sort_size && a.sort_time) ==> (res matches Ok(
            inv,
        ) && is_invocation(inv, cli)),
        cli.command matches Command::Rm(a) ==> (res matches Ok(
            Invocation::Rm { serial, auto_connect, remote_path, recursive, force, dry_run, json },
        ) && serial == cli.device && auto_connect == cli.auto_connect && remote_path
            == a.remote_path && recursive == a.recursive && force == a.force && dry_run
            == a.dry_run && json == cli.json),
        cli.command matches Command::Pull(a) ==> (res matches Ok(
            Invocation::Pull { serial, auto_connect, remote_path, local_path, options, json },
        ) && serial == cli.device && auto_connect == cli.auto_connect && remote_path
            == a.remote_path && local_path == a.local_path && options.recursive == a.recursive
            && options.overwrite == a.overwrite && options.skip_existing == a.skip_existing
            && options.dry_run == a.dry_run && json == cli.json && (options.progress <==> (
        !cli.no_progress && !cli.json && !a.dry_run))),
        cli.command matches Command::Push(a) ==> (res matches Ok(
            Invocation::Push { serial, auto_connect, local_path, remote_path, options, json },
        ) && serial == cli.device && auto_connect == cli.auto_connect && local_path
            == a.local_path && remote_path == a.remote_path && options.recursive == a.recursive
            && options.overwrite == a.overwrite && options.dry_run == a.dry_run && json == cli.json
            && (options.progress <==> (!cli.no_progress && !cli.json && !a.dry_run))),
        cli.command matches Command::Mkdir(a) ==> (res matches Ok(
            Invocation::Mkdir { serial, auto_connect, remote_path, parents, json },
        ) && serial == cli.device && auto_connect == cli.auto_connect && remote_path
            == a.remote_path && parents == a.parents && json == cli.json),
        cli.command matches Command::Rename(a) ==> (res matches Ok(
            Invocation::Rename { serial, auto_connect, remote_path, new_name, json },
        ) && serial == cli.device && auto_connect == cli.auto_connect && remote_path
            == a.remote_path && new_name == a.new_name && json == cli.json),
        cli.command matches Command::Tree(a) ==> (res matches Ok(
            Invocation::Tree { serial, auto_connect, remote_path, depth, json, ids },
        ) && serial == cli.device && auto_connect == cli.auto_connect && remote_path
            == a.remote_path && depth == a.depth && json == cli.json && ids == a.ids),
        cli.command matches Command::Stat(a) ==> (res matches Ok(
            Invocation::Stat { serial, auto_connect, remote_path, json },
        ) && serial == cli.device && auto_connect == cli.auto_connect && remote_path
            == a.remote_path && json == cli.json),
        cli.command matches Command::Ls(a) ==> (a.sort_size && a.sort_time) || (res matches Ok(
            Invocation::Ls { serial, auto_connect, remote_path, take_over, json, display },
        ) && serial == cli.device && auto_connect == cli.auto_connect && remote_path
            == a.remote_path && take_over == a.take_over && json == cli.json && display.long
            == a.long && display.ids == a.ids && display.size == a.size && display.human_readable
            == a.human_readable && display.reverse == a.reverse && (display.sort == LsSort::Size
            <==> a.sort_size) && (display.sort == LsSort::Time <==> a.sort_time)),
        cli.command matches Command::Eject ==> (res matches Ok(
            Invocation::Eject { serial, auto_connect, json },
        ) && serial == cli.device && auto_connect == cli.auto_connect && json == cli.json),
{
    let ghost c = cli;
    let Cli { device: serial, json, auto_connect, no_progress, verbose: _, command } = cli;
    match command {
        Command::Devices => Ok(Invocation::Devices { serial, json }),
        Command::Doctor => Ok(Invocation::Doctor { serial, json }),
        Command::Status => Ok(Invocation::Status { serial, json }),
        Command::Connect => Ok(Invocation::Connect { serial, json }),
        Command::Ls(args) => {
            if args.sort_size && args.sort_time {
                return Err(
                    AppError::InvalidArguments {
                        message: String::from_str("choose either --sort-size or --sort-time"),
                    },
                );
            }
            let sort = if args.sort_size {
                LsSort::Size
            } else if args.sort_time {
                LsSort::Time
            } else {
                LsSort::Name
            };
            Ok(
                Invocation::Ls {
                    serial,
                    auto_connect,
                    remote_path: args.remote_path,
                    take_over: args.take_over,
                    json,
                    display: LsDisplayOptions {
                        long: args.long,
                        ids: args.ids,
                        size: args.size,
                        human_readable: args.human_readable,
                        sort,
                        reverse: args.reverse,
                    },
                },
            )
        },
        Command::Tree(args) => Ok(
            Invocation::Tree {
                serial,
                auto_connect,
                remote_path: args.remote_path,
                depth: args.depth,
                json,
                ids: args.ids,
            },
        ),
        Command::Stat(args) => Ok(
            Invocation::Stat { serial, auto_connect, remote_path: args.remote_path, json },
        ),
        Command::Pull(args) => {
            let progress = !no_progress && !json && !args.dry_run;
            Ok(
                Invocation::Pull {
                    serial,
                    auto_connect,
                    remote_path: args.remote_path,
                    local_path: args.local_path,
                    options: PullOptions {
                        recursive: args.recursive,
                        overwrite: args.overwrite,
                        skip_existing: args.skip_existing,
                        dry_run: args.dry_run,
                        progress,
                    },
                    json,
                },
            )
        },
        Command::Push(args) => {
            let progress = !no_progress && !json && !args.dry_run;
            Ok(
                Invocation::Push {
                    serial,
                    auto_connect,
                    local_path: args.local_path,
                    remote_path: args.remote_path,
                    options: PushOptions {
                        recursive: args.recursive,
                        overwrite: args.overwrite,
                        dry_run: args.dry_run,
                        progress,
                    },
                    json,
                },
            )
        },
        Command::Mkdir(args) => Ok(
            Invocation::Mkdir {
                serial,
                auto_connect,
                remote_path: args.remote_path,
                parents: args.parents,
                json,
            },
        ),
        Command::Rm(args) => Ok(
            Invocation::Rm {
                serial,
                auto_connect,
                remote_path: args.remote_path,
                recursive: args.recursive,
                force: args.force,
                dry_run: args.dry_run,
                json,
            },
        ),
        Command::Rename(args) => Ok(
            Invocation::Rename {
                serial,
                auto_connect,
                remote_path: args.remote_path,
                new_name: args.new_name,
                json,
            },
        ),
        Command::Eject => Ok(Invocation::Eject { serial, auto_connect, json }),
    }
}

/// The default log filter for a verbosity count.
pub fn log_filter(verbose: u8) -> (res: &'static str)
    ensures
        res@ == (if verbose == 0 {
            "warn"@
        } else if verbose == 1 {
            "info"@
        } else {
            "debug,nusb=debug"@
        }),
{
    match verbose {
        0 => "warn",
        1 => "info",
        _ => "debug,nusb=debug",
    }
}

} // verus!
