//! What the command line does before the database is opened: the `db path`
//! and `db status` commands only report where the database is, so they are
//! answered without opening it.

use vstd::prelude::*;

verus! {

/// The `db` subcommands.
#[derive(Clone, Copy, Debug, PartialEq, Eq, Structural)]
pub enum DbAction {
    /// Print the resolved database path.
    Path,
    /// Print where the database is and whether it exists.
    Status { json: bool },
    /// Recreate the database (development use).
    Reset,
}

/// A parsed command, as far as the database handling needs to know it.
#[derive(Clone, Copy, Debug, PartialEq, Eq, Structural)]
pub enum Command {
    Db { action: DbAction },
    /// Any command that works on the opened database.
    Other,
}

/// What to do before the database is opened.
#[derive(Clone, Copy, Debug, PartialEq, Eq, Structural)]
pub enum BeforeOpen {
    /// Report the resolved path; the command is then done.
    ShowPath,
    /// Report the database status; the command is then done.
    ShowStatus { json: bool },
    /// Open the database and run the command on it.
    OpenDatabase,
}

/// Decides whether `command` is answered before the database is opened.
pub fn run_before_open_db(command: &Command) -> (r: BeforeOpen)
    ensures
        r == match *command {
            Command::Db { action: DbAction::Path } => BeforeOpen::ShowPath,
            Command::Db { action: DbAction::Status { json } } => BeforeOpen::ShowStatus { json },
            _ => BeforeOpen::OpenDatabase,
        },
{
    match command {
        Command::Db { action: DbAction::Path } => BeforeOpen::ShowPath,
        Command::Db { action: DbAction::Status { json } } => BeforeOpen::ShowStatus { json: *json },
        _ => BeforeOpen::OpenDatabase,
    }
}

} // verus!
