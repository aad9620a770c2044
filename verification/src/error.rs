//! Everything that can go wrong, and how it is reported.

use vstd::prelude::*;
use vstd::string::*;
use crate::number;

verus! {

/// A failed operation.  `Http` and `Io` carry the text of the underlying error.
#[derive(Debug)]
pub enum Error {
    Config(String),
    ProxmoxApi { status: u16, message: String },
    TaskFailed(String),
    Http(String),
    Io(String),
    SyncCommand(i32),
    ContainerNotFound(u32),
    ContainerExists(u32),
    Timeout(String),
    NoContainerIp,
    Ssh(String),
}

/// The mathematical content of an [`Error`].
pub enum ErrorView {
    Config(Seq<char>),
    ProxmoxApi { status: u16, message: Seq<char> },
    TaskFailed(Seq<char>),
    Http(Seq<char>),
    Io(Seq<char>),
    SyncCommand(i32),
    ContainerNotFound(u32),
    ContainerExists(u32),
    Timeout(Seq<char>),
    NoContainerIp,
    Ssh(Seq<char>),
}

impl View for Error {
    type V = ErrorView;

    open spec fn view(&self) -> ErrorView {
        match self {
            Error::Config(m) => ErrorView::Config(m@),
            Error::ProxmoxApi { status, message } => ErrorView::ProxmoxApi { status: *status, message: message@ },
            Error::TaskFailed(m) => ErrorView::TaskFailed(m@),
            Error::Http(m) => ErrorView::Http(m@),
            Error::Io(m) => ErrorView::Io(m@),
            Error::SyncCommand(c) => ErrorView::SyncCommand(*c),
            Error::ContainerNotFound(v) => ErrorView::ContainerNotFound(*v),
            Error::ContainerExists(v) => ErrorView::ContainerExists(*v),
            Error::Timeout(m) => ErrorView::Timeout(m@),
            Error::NoContainerIp => ErrorView::NoContainerIp,
            Error::Ssh(m) => ErrorView::Ssh(m@),
        }
    }
}

impl Clone for Error {
    fn clone(&self) -> (r: Self)
        ensures
            r == *self,
    {
        match self {
            Error::Config(m) => Error::Config(m.clone()),
            Error::ProxmoxApi { status, message } => Error::ProxmoxApi { status: *status, message: message.clone() },
            Error::TaskFailed(m) => Error::TaskFailed(m.clone()),
            Error::Http(m) => Error::Http(m.clone()),
            Error::Io(m) => Error::Io(m.clone()),
            Error::SyncCommand(c) => Error::SyncCommand(*c),
            Error::ContainerNotFound(v) => Error::ContainerNotFound(*v),
            Error::ContainerExists(v) => Error::ContainerExists(*v),
            Error::Timeout(m) => Error::Timeout(m.clone()),
            Error::NoContainerIp => Error::NoContainerIp,
            Error::Ssh(m) => Error::Ssh(m.clone()),
        }
    }
}

impl ErrorView {
    /// The message shown to the user.
    pub open spec fn text(self) -> Seq<char> {
        match self {
            ErrorView::Config(m) => "configuration error: "@ + m,
            ErrorView::ProxmoxApi { status, message } => "proxmox API error (HTTP "@ + number::decimal(status as nat)
                + "): "@ + message,
            ErrorView::TaskFailed(m) => "proxmox task failed: "@ + m,
            ErrorView::Http(m) => "HTTP request failed: "@ + m,
            ErrorView::Io(m) => "IO error: "@ + m,
            ErrorView::SyncCommand(c) => "sync failed: command exited with status "@ + number::signed(c as int),
            ErrorView::ContainerNotFound(v) => "container "@ + number::decimal(v as nat) + " not found"@,
            ErrorView::ContainerExists(v) => "container "@ + number::decimal(v as nat)
                + " already exists — use `dps destroy` first or choose a different vmid"@,
            ErrorView::Timeout(m) => "timed out waiting for "@ + m,
            ErrorView::NoContainerIp =>
                "could not determine container IP — check Proxmox interfaces or set sync.container_ip in config"@,
            ErrorView::Ssh(m) => "SSH command failed: "@ + m,
        }
    }
}

impl Error {
    /// The message shown to the user.
    pub fn to_string(&self) -> (r: String)
        ensures
            r@ == self@.text(),
    {
        match self {
            Error::Config(m) => "configuration error: ".to_string().concat(m.as_str()),
            Error::ProxmoxApi { status, message } => "proxmox API error (HTTP ".to_string().concat(
                number::to_decimal(*status as u64).as_str(),
            ).concat("): ").concat(message.as_str()),
            Error::TaskFailed(m) => "proxmox task failed: ".to_string().concat(m.as_str()),
            Error::Http(m) => "HTTP request failed: ".to_string().concat(m.as_str()),
            Error::Io(m) => "IO error: ".to_string().concat(m.as_str()),
            Error::SyncCommand(c) => "sync failed: command exited with status ".to_string().concat(
                number::to_signed(*c).as_str(),
            ),
            Error::ContainerNotFound(v) => "container ".to_string().concat(
                number::to_decimal(*v as u64).as_str(),
            ).concat(" not found"),
            Error::ContainerExists(v) => "container ".to_string().concat(
                number::to_decimal(*v as u64).as_str(),
            ).concat(" already exists — use `dps destroy` first or choose a different vmid"),
            Error::Timeout(m) => "timed out waiting for ".to_string().concat(m.as_str()),
            Error::NoContainerIp =>
                "could not determine container IP — check Proxmox interfaces or set sync.container_ip in config".to_string(),
            Error::Ssh(m) => "SSH command failed: ".to_string().concat(m.as_str()),
        }
    }
}

} // verus!
