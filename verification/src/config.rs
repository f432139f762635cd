//! Configuration model: the mapping of reference images to site paths and
//! the base URL. Loaded from disk by the surrounding program; validated here.

use vstd::prelude::*;

use crate::outside::parse_url_ok;
use crate::outside::url_ok;

verus! {

/// Why a configuration could not be loaded; fatal at startup.
#[derive(Clone, Copy, Debug, PartialEq, Eq, Structural)]
pub enum ConfigError {
    /// The configuration file does not exist.
    NotFound,
    /// The file is not valid structured data, misses required fields, or
    /// fails validation.
    Malformed,
}

/// One configured pairing of a reference image and a site URL path.
#[derive(Debug, PartialEq, Eq)]
pub struct IndivisualSetting {
    pub name: String,
    pub path: String,
}

impl IndivisualSetting {
    pub fn new(name: &str, path: &str) -> (r: IndivisualSetting)
        ensures
            r.name@ == name@,
            r.path@ == path@,
    {
        IndivisualSetting { name: name.to_owned(), path: path.to_owned() }
    }
}

/// The whole configuration of one run: where the reference images live, the
/// directory to watch, the base URL of the live site, and the ordered
/// settings.
#[derive(Debug, PartialEq, Eq)]
pub struct Config {
    pub images: String,
    pub watch: String,
    pub url: String,
    pub settings: Vec<IndivisualSetting>,
}

impl Config {
    /// A configuration is valid when the two directory names are non-empty
    /// and the base URL parses as an absolute URL.
    pub open spec fn valid(self) -> bool {
        &&& self.images@.len() > 0
        &&& self.watch@.len() > 0
        &&& url_ok(self.url@)
    }

    pub fn new(images: String, watch: String, url: String, settings: Vec<IndivisualSetting>) -> (r:
        Config)
        ensures
            r.images == images,
            r.watch == watch,
            r.url == url,
            r.settings == settings,
    {
        Config { images, watch, url, settings }
    }

    /// Checks the configuration invariant; a run only starts on a valid one.
    pub fn validate(&self) -> (r: bool)
        ensures
            r == self.valid(),
    {
        !self.images.as_str().is_empty() && !self.watch.as_str().is_empty() && parse_url_ok(
            self.url.as_str(),
        )
    }
}

} // verus!
