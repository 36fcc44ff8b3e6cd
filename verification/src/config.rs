//! Server configuration: the resolved settings the core consumes.  Reading
//! them from the environment is the surrounding process's concern; the core
//! only sees the final values.

use vstd::prelude::*;

verus! {

/// Server configuration, with every path already resolved to text.
#[derive(Debug)]
pub struct Config {
    /// Base URL the server is reachable under.
    pub url: String,
    /// Port to listen on.
    pub port: u16,
    /// Directory website data is stored under.
    pub data_path: String,
    /// Shared publication directory; when absent, each site publishes into
    /// its own subdirectory of the data path.
    pub hosting_path: Option<String>,
    /// Folder name for assets within each website.
    pub assets_folder: String,
    /// Id of the default website created on first run.
    pub default_website_id: String,
    /// Single static directory served at the root, when set.
    pub static_path: Option<String>,
    /// Further static routes, as route and path pairs.
    pub static_routes: Vec<(String, String)>,
}

impl Config {
    /// The full server URL.
    pub fn server_url(&self) -> (r: &str)
        ensures
            r@ == self.url@,
    {
        self.url.as_str()
    }
}

impl Default for Config {
    /// The stock configuration: a local URL and the conventional directory
    /// names.
    fn default() -> (r: Self)
        ensures
            r.url@ == "http://localhost:6805"@,
            r.port == 6805,
            r.data_path@ == "./silex/storage"@,
            r.hosting_path is None,
            r.assets_folder@ == "assets"@,
            r.default_website_id@ == "default"@,
            r.static_path is None,
            r.static_routes@.len() == 0,
    {
        Config {
            url: "http://localhost:6805".to_owned(),
            port: 6805,
            data_path: "./silex/storage".to_owned(),
            hosting_path: Option::None,
            assets_folder: "assets".to_owned(),
            default_website_id: "default".to_owned(),
            static_path: Option::None,
            static_routes: Vec::new(),
        }
    }
}

} // verus!
