//! The command line: what it can say, and which job it asks for.

use vstd::prelude::*;
use vstd::string::*;
use crate::sync::profile::Direction;

verus! {

/// A command line.
#[derive(Debug)]
pub struct Cli {
    /// Path to the configuration file; the default location where absent.
    pub config: Option<String>,
    /// Whether debug output is wanted.
    pub verbose: bool,
    pub command: Commands,
}

/// A subcommand.
#[derive(Debug)]
#[allow(inconsistent_fields)]
pub enum Commands {
    /// Create and bootstrap the sync container.
    Setup { no_bootstrap: bool, save_ip: bool },
    /// Push the local profile to the container.
    Push { user: Option<String>, dry_run: bool },
    /// Pull the profile from the container.
    Pull { user: Option<String>, dry_run: bool },
    /// Look for conflicts and machine-specific content.
    Check { user: Option<String> },
    /// Sync whenever something changes.
    Watch { user: Option<String>, direction: String, debounce_ms: u64, poll_secs: u64 },
    /// Show the state of the container and a summary of the configuration.
    Status,
    /// Start the container.
    Start,
    /// Stop the container.
    Stop,
    /// Destroy the container and all profiles stored in it.
    Destroy { yes: bool },
    /// Manage Tailscale on the container.
    Tailscale { action: TailscaleAction },
}

/// A subcommand of `tailscale`.
#[derive(Debug)]
pub enum TailscaleAction {
    /// Show the Tailscale status of the container.
    Status,
    /// Authenticate again, with the given key or the configured one.
    Reauth { key: Option<String> },
}

/// A job for the program.
#[derive(Debug)]
#[allow(inconsistent_fields)]
pub enum Job {
    Setup { no_bootstrap: bool, save_ip: bool },
    /// Transfer the profile.
    Sync { direction: Direction, user: Option<String> },
    /// Show what a transfer would do.
    DryRun { direction: Direction, user: Option<String> },
    Check { user: Option<String> },
    Status,
    Start,
    Stop,
    Destroy { yes: bool },
    Watch { user: Option<String>, direction: String, debounce_ms: u64, poll_secs: u64 },
    Tailscale { action: TailscaleAction },
}

/// The job that a subcommand asks for.
pub open spec fn job_of(command: Commands) -> Job {
    match command {
        Commands::Setup { no_bootstrap, save_ip } => Job::Setup { no_bootstrap, save_ip },
        Commands::Push { user, dry_run } => if dry_run {
            Job::DryRun { direction: Direction::Push, user }
        } else {
            Job::Sync { direction: Direction::Push, user }
        },
        Commands::Pull { user, dry_run } => if dry_run {
            Job::DryRun { direction: Direction::Pull, user }
        } else {
            Job::Sync { direction: Direction::Pull, user }
        },
        Commands::Check { user } => Job::Check { user },
        Commands::Status => Job::Status,
        Commands::Start => Job::Start,
        Commands::Stop => Job::Stop,
        Commands::Destroy { yes } => Job::Destroy { yes },
        Commands::Watch { user, direction, debounce_ms, poll_secs } => Job::Watch {
            user,
            direction,
            debounce_ms,
            poll_secs,
        },
        Commands::Tailscale { action } => Job::Tailscale { action },
    }
}

/// The job that a subcommand asks for.
pub fn run(command: Commands) -> (r: Job)
    ensures
        r == job_of(command),
{
    match command {
        Commands::Setup { no_bootstrap, save_ip } => Job::Setup { no_bootstrap, save_ip },
        Commands::Push { user, dry_run } => transfer(Direction::Push, user, dry_run),
        Commands::Pull { user, dry_run } => transfer(Direction::Pull, user, dry_run),
        Commands::Check { user } => Job::Check { user },
        Commands::Status => Job::Status,
        Commands::Start => Job::Start,
        Commands::Stop => Job::Stop,
        Commands::Destroy { yes } => Job::Destroy { yes },
        Commands::Watch { user, direction, debounce_ms, poll_secs } => Job::Watch {
            user,
            direction,
            debounce_ms,
            poll_secs,
        },
        Commands::Tailscale { action } => Job::Tailscale { action },
    }
}

fn transfer(direction: Direction, user: Option<String>, dry_run: bool) -> (r: Job)
    ensures
        r == (if dry_run {
            Job::DryRun { direction, user }
        } else {
            Job::Sync { direction, user }
        }),
{
    if dry_run {
        Job::DryRun { direction, user }
    } else {
        Job::Sync { direction, user }
    }
}

/// How much is logged.
pub fn log_level(verbose: bool) -> (r: &'static str)
    ensures
        r@ == (if verbose {
            "debug"@
        } else {
            "info"@
        }),
{
    if verbose {
        "debug"
    } else {
        "info"
    }
}

/// A dry run never becomes a transfer.
pub proof fn law_dry_runs_transfer_nothing(user: Option<String>)
    ensures
        job_of(Commands::Push { user, dry_run: true }) is DryRun,
        job_of(Commands::Pull { user, dry_run: true }) is DryRun,
{
}

} // verus!
