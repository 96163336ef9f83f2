//! The choices made once, when the service starts: where the database lives
//! and which port to listen on.

use vstd::prelude::*;

verus! {

/// The database file in the working directory.
pub const LOCAL_DATABASE: &'static str = "db.db";

/// The directory that holds the database when the working directory has none.
pub const STORAGE_DIRECTORY: &'static str = "storage";

/// The database file in the storage directory.
pub const STORAGE_DATABASE: &'static str = "storage/db.db";

/// The port to listen on when none is configured.
pub const DEFAULT_PORT: u16 = 9000;

/// Picks the database file. The one in the working directory is used unless
/// it is missing while the storage directory exists.
pub fn database_path(local_is_file: bool, storage_is_dir: bool) -> (path: &'static str)
    ensures
        path == if !local_is_file && storage_is_dir {
            STORAGE_DATABASE
        } else {
            LOCAL_DATABASE
        },
{
    if !local_is_file && storage_is_dir {
        STORAGE_DATABASE
    } else {
        LOCAL_DATABASE
    }
}

/// The number that a text stands for when read as a decimal `u16`, if it
/// stands for one.
pub uninterp spec fn decimal_u16(text: Seq<char>) -> Option<u16>;

/// Reads `text` as a port number with `str::parse::<u16>`, keeping only
/// whether it succeeded and with which number. Nothing is claimed of the
/// reading but that the same text always reads alike.
#[verifier::external_body]
fn parse_u16(text: &str) -> (value: Option<u16>)
    ensures
        value == decimal_u16(text@),
{
    text.parse::<u16>().ok()
}

/// The port for a configured number, or the default without one.
pub fn listen_port(configured: Option<u16>) -> (port: u16)
    ensures
        port == match configured {
            Some(number) => number,
            None => DEFAULT_PORT,
        },
{
    match configured {
        Some(number) => number,
        None => DEFAULT_PORT,
    }
}

/// The port for the configured text: the number that it stands for, or the
/// default when nothing is configured or the text is no port number.
pub fn port_from_setting(setting: Option<&str>) -> (port: u16)
    ensures
        port == match setting {
            Some(text) => match decimal_u16(text@) {
                Some(number) => number,
                None => DEFAULT_PORT,
            },
            None => DEFAULT_PORT,
        },
{
    match setting {
        Some(text) => listen_port(parse_u16(text)),
        None => DEFAULT_PORT,
    }
}

} // verus!
