# dps — Debian Profile Sync

`dps` keeps shell configuration, dotfiles and editor settings identical across
machines.  A small LXC container on a Proxmox node holds the profiles; every
machine pushes its changes there and pulls those of the others.

The library in `src/` holds everything that `dps` decides, and every function in
it is proved with Verus against its contract.  The programs in `app/` perform
what the library decides: they read and write files, run `rsync` and `ssh`, talk
HTTPS to Proxmox and draw the control panel.

## Library

| Module | What it holds |
|---|---|
| `config` | the configuration, its defaults and where it lives |
| `cli`, `commands`, `report` | what the commands decide and print |
| `wizard` | the first-time setup as a dialogue |
| `proxmox` | requests to the Proxmox API, the meaning of replies, waiting |
| `sync::contents` | what a directory holds, here or on the container |
| `sync::ignore` | exclusion rules and the search for machine-specific files |
| `sync::pattern` | exclusion patterns and the paths that they cover |
| `sync::profile` | planning transfers with rsync or scp |
| `sync::run` | transferring several paths, one after the other |
| `sync::setup` | provisioning a container |
| `sync::watcher` | debouncing changes and choosing what to push and pull |
| `daemon`, `ipc` | the background daemon and its protocol |
| `gui` | the control panel: what it shows and what its controls ask for |
| `text`, `number`, `path`, `error` | the ground the rest stands on |

What holds of the library as a whole is stated in the public proof functions whose
names begin with `law_`.

## What is taken on trust

These calls are described but not proved: `dirs::home_dir` and `dirs::config_dir`,
the JSON reader and values of `serde_json`, the text of a `reqwest::StatusCode`,
`std::str::from_utf8` and `String::push`.  Each has a doc comment that says what
is claimed of it.

## Programs

`app/main.rs` is the command `dps`, and the daemon when it is started under the
name `dps-daemon`.  `app/dps_gui.rs` is the tray application, which needs the
`tray-icon` crate and GTK.
