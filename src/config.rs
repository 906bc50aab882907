//! The settings a run is made from.
use vstd::prelude::*;

verus! {

/// What a run is asked to do.
#[derive(Clone, Copy, Debug, PartialEq, Eq, Structural)]
pub enum Command {
    /// List the source mailboxes.
    List,
    /// Synchronise the selected mailboxes.
    Sync,
}

/// One endpoint: where to connect, as whom, and which mailboxes to take.
#[derive(Clone, Debug)]
pub struct ConfigData {
    pub host: String,
    pub user: String,
    pub password: String,
    /// Comma-separated listing patterns; absent means every mailbox.
    pub wanted: Option<String>,
    /// Comma-separated mailbox names to leave out.
    pub exclude: Option<String>,
}

/// The two endpoints of a run.
#[derive(Clone, Debug)]
pub struct Config {
    pub src: ConfigData,
    pub dst: ConfigData,
}

} // verus!
