//! The errors of the library. Paths are the text of the path; the causes of
//! I/O failures are the text of the operating system's error.
use crate::text::views;
use vstd::prelude::*;

verus! {

/// What can go wrong while driving the LED or reading the configuration.
#[derive(Debug)]
pub enum Error {
    /// The LED's directory has no `brightness` file.
    LedNodeMissing(String),
    /// A write to a sysfs attribute of the LED failed.
    LedNodeNotWritable { path: String, source: String },
    /// No LED under /sys/class/leds matched the selector.
    LedSelectorNotFound { vendor: String, product: String, name: String },
    /// A write reported success but reading the value back gave something
    /// else: on input-device LEDs, another process holds an exclusive
    /// EVIOCGRAB on the backing /dev/input node.
    WriteVerifyMismatch { path: String, wrote: String, read_back: String },
    /// Neither the configuration nor autodetection named a block device.
    NoBlockDevicesFound { configured: Vec<String> },
    /// A read failed.
    Io { path: String, source: String },
    /// The configuration is invalid.
    Config { path: String, source: String },
}

/// `Error` with every text taken as its characters.
pub enum ErrorView {
    LedNodeMissing(Seq<char>),
    LedNodeNotWritable { path: Seq<char>, source: Seq<char> },
    LedSelectorNotFound { vendor: Seq<char>, product: Seq<char>, name: Seq<char> },
    WriteVerifyMismatch { path: Seq<char>, wrote: Seq<char>, read_back: Seq<char> },
    NoBlockDevicesFound { configured: Seq<Seq<char>> },
    Io { path: Seq<char>, source: Seq<char> },
    Config { path: Seq<char>, source: Seq<char> },
}

impl View for Error {
    type V = ErrorView;

    open spec fn view(&self) -> ErrorView {
        match self {
            Error::LedNodeMissing(p) => ErrorView::LedNodeMissing(p@),
            Error::LedNodeNotWritable { path, source } => ErrorView::LedNodeNotWritable {
                path: path@,
                source: source@,
            },
            Error::LedSelectorNotFound { vendor, product, name } =>
                ErrorView::LedSelectorNotFound { vendor: vendor@, product: product@, name: name@ },
            Error::WriteVerifyMismatch { path, wrote, read_back } =>
                ErrorView::WriteVerifyMismatch { path: path@, wrote: wrote@, read_back: read_back@ },
            Error::NoBlockDevicesFound { configured } => ErrorView::NoBlockDevicesFound {
                configured: views(configured@),
            },
            Error::Io { path, source } => ErrorView::Io { path: path@, source: source@ },
            Error::Config { path, source } => ErrorView::Config { path: path@, source: source@ },
        }
    }
}

impl Error {
    /// Whether the error says that the LED node is gone: its directory lost
    /// `brightness`, or a write to it failed (unplug).
    pub fn is_node_gone(&self) -> (r: bool)
        ensures
            r == node_gone(self@),
    {
        match self {
            Error::LedNodeMissing(_) => true,
            Error::LedNodeNotWritable { .. } => true,
            _ => false,
        }
    }
}

/// The errors that mean that the LED node vanished.
pub open spec fn node_gone(e: ErrorView) -> bool {
    e is LedNodeMissing || e is LedNodeNotWritable
}

} // verus!
