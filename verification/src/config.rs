//! The configuration that names the object store.

use crate::endpoint::{is_endpoint, objects_url, Endpoint, UrlError};
use vstd::prelude::*;

verus! {

/// The name of the configuration file, as a sequence of characters.
pub open spec fn config_file_name_text() -> Seq<char> {
    ".lfsconfig"@
}

/// The name of the configuration file, which lies directly in the root of
/// the tree.
pub fn config_file_name() -> (name: &'static str)
    ensures
        name@ == config_file_name_text(),
{
    ".lfsconfig"
}

/// The settings of the object store.
#[derive(Debug, PartialEq, Eq)]
pub struct LfsConfigInner {
    /// The base URL of the store.
    pub url: String,
    /// Which paths to fetch; not looked at here.
    pub fetchinclude: Option<String>,
    /// Which paths not to fetch; not looked at here.
    pub fetchexclude: Option<String>,
}

/// What the configuration file holds.
#[derive(Debug, PartialEq, Eq)]
pub struct LfsConfig {
    /// The settings of the object store.
    pub lfs: LfsConfigInner,
}

impl LfsConfig {
    /// The endpoint of the store that the configuration names. It fails
    /// exactly where the configured URL gives no endpoint, and then gives
    /// the reason.
    pub fn endpoint(&self) -> (r: Result<Endpoint, UrlError>)
        ensures
            is_endpoint(r, objects_url(self.lfs.url@)),
    {
        Endpoint::resolve(self.lfs.url.as_str())
    }
}

} // verus!
