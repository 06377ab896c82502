use vstd::prelude::*;

verus! {

/// The command line of the CLI.
#[derive(Debug)]
pub struct Cli {
    /// API base URL.
    pub base_url: String,
    /// Bearer token; when set, username and password are not required.
    pub token: Option<String>,
    /// Username for OAuth2 client credentials.
    pub username: Option<String>,
    /// Password for OAuth2 client credentials.
    pub password: Option<String>,
    /// Output format.
    pub output: OutputFormat,
    /// Request timeout in seconds.
    pub timeout: Option<u64>,
    pub command: Option<Command>,
}

/// How JSON documents are printed.
#[derive(Debug, Clone, Copy, PartialEq, Eq, Structural)]
pub enum OutputFormat {
    /// Indented, human-readable JSON (default).
    Pretty,
    /// Compact single-line JSON, suited for machine consumption.
    Compact,
}

/// The subcommands.
#[derive(Debug)]
pub enum Command {
    /// PACT-based iLEAP data (DT1 and DT2) [/2/footprints].
    Footprints { cmd: FootprintsCmd },
    /// iLEAP standalone ShipmentFootprints (DT1) [/v1/ileap/shipments].
    Shipments { cmd: ListCmd },
    /// iLEAP standalone TOCs (DT2) [/v1/ileap/tocs].
    Tocs { cmd: ListCmd },
    /// iLEAP standalone HOCs (DT2) [/v1/ileap/hocs].
    Hocs { cmd: ListCmd },
    /// iLEAP Transport Activity Data (DT3) [/v1/ileap/tad].
    Tad { cmd: ListCmd },
    /// iLEAP Aggregated Emissions Data (DT4) [/v1/ileap/aed].
    Aed { cmd: ListCmd },
    /// Manage authentication.
    Auth { cmd: AuthCmd },
}

/// `auth` subcommands.
#[derive(Debug, Clone, Copy, PartialEq, Eq, Structural)]
pub enum AuthCmd {
    /// Authenticate and cache a token; skips re-authentication when a valid token is cached.
    Login,
    /// Show whether a valid cached token exists.
    Status,
}

/// The subcommand of a standalone resource.
#[derive(Debug)]
pub enum ListCmd {
    /// List records.
    List(ListArgs),
}

/// `footprints` subcommands.
#[derive(Debug)]
pub enum FootprintsCmd {
    /// List footprints.
    List(ListArgs),
    /// Get a footprint by UUID.
    Get { id: String, dry_run: bool },
}

/// Options of a listing.
#[derive(Debug)]
pub struct ListArgs {
    /// Maximum number of results per page (at least 1).
    pub limit: Option<u32>,
    /// Filter expressions (repeatable for iLEAP endpoints; one OData expression for PACT).
    pub filter: Vec<String>,
    /// Print the request that would be sent without executing it.
    pub dry_run: bool,
    /// Maximum number of pages to fetch when paginating.
    pub max_pages: Option<u32>,
}

impl Default for ListArgs {
    fn default() -> (a: Self)
        ensures
            a.limit is None,
            a.filter@.len() == 0,
            !a.dry_run,
            a.max_pages is None,
    {
        ListArgs { limit: None, filter: Vec::new(), dry_run: false, max_pages: None }
    }
}

} // verus!
