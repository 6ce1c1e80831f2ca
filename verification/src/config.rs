//! The proxy's configuration: the directory that holds the backend
//! executable, the health-check path, and the local port the backend must
//! bind. The configuration document itself is read and decoded by the
//! application, once, at first use; this module owns the values and what is
//! derived from them.

use vstd::prelude::*;

use crate::text::push_str;

verus! {

/// The local port the supervised backend binds, unless configured otherwise.
pub const DEFAULT_BACKEND_PORT: u16 = 8080;

/// The configuration, immutable for the process lifetime.
pub struct Config {
    /// The directory (relative to the working directory) that holds the
    /// backend executable, named `main`.
    pub dist_dir: String,
    /// The URL path the backend answers health probes on.
    pub healthcheck_endpoint: String,
    /// The local port the backend is told to bind.
    pub port: u16,
}

/// The on-disk location of the backend executable for a given dist
/// directory: `./<dist_dir>/main`.
pub open spec fn executable_path_spec(dist_dir: Seq<char>) -> Seq<char> {
    "./"@ + dist_dir + "/main"@
}

impl Config {
    /// A configuration with the default backend port.
    pub fn new(dist_dir: String, healthcheck_endpoint: String) -> (c: Config)
        ensures
            c.dist_dir == dist_dir,
            c.healthcheck_endpoint == healthcheck_endpoint,
            c.port == DEFAULT_BACKEND_PORT,
    {
        Config { dist_dir, healthcheck_endpoint, port: DEFAULT_BACKEND_PORT }
    }

    /// A configuration with an explicit backend port.
    pub fn with_port(dist_dir: String, healthcheck_endpoint: String, port: u16) -> (c: Config)
        ensures
            c.dist_dir == dist_dir,
            c.healthcheck_endpoint == healthcheck_endpoint,
            c.port == port,
    {
        Config { dist_dir, healthcheck_endpoint, port }
    }

    /// Where the backend executable must be: `./<dist_dir>/main`.
    pub fn executable_path(&self) -> (r: String)
        ensures
            r@ == executable_path_spec(self.dist_dir@),
    {
        let mut out = String::new();
        push_str(&mut out, "./");
        push_str(&mut out, self.dist_dir.as_str());
        push_str(&mut out, "/main");
        proof {
            assert(out@ =~= executable_path_spec(self.dist_dir@));
        }
        out
    }
}

} // verus!
