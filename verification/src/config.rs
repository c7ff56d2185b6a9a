//! Server configuration: the command-line options and the search
//! directories they carry.

use vstd::prelude::*;
use vstd::string::StringExecFns;
use crate::text::views_of;

verus! {

/// Which editor client the server talks to.
#[derive(Debug, Clone, Copy, PartialEq, Eq, Structural)]
pub enum LspClient {
    VSCode,
}

/// The command-line options: the client, and the search directories for
/// schema packages.
#[derive(Debug, Clone)]
pub struct Cli {
    pub client: Option<LspClient>,
    pub search_dirs: Vec<String>,
}

/// The server configuration: the search directories the user supplied,
/// already resolved to paths.  Dependencies found through package manifests
/// are not included here.
#[derive(Debug, Clone)]
pub struct ServerConfig {
    pub lsp_client: Option<LspClient>,
    pub search_dirs: Vec<String>,
}

impl ServerConfig {
    pub fn new(lsp_client: Option<LspClient>, search_dirs: Vec<String>) -> (r: Self)
        ensures
            r.lsp_client == lsp_client,
            views_of(r.search_dirs@) == views_of(search_dirs@),
    {
        ServerConfig { lsp_client, search_dirs }
    }

    /// The configuration the command-line options call for.
    pub fn from_cli(cli: &Cli) -> (r: Self)
        ensures
            r.lsp_client == cli.client,
            views_of(r.search_dirs@) == views_of(cli.search_dirs@),
    {
        ServerConfig {
            lsp_client: cli.client,
            search_dirs: crate::text::clone_strings(&cli.search_dirs),
        }
    }
}

} // verus!
