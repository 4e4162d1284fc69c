//! The settings of the program.

use vstd::prelude::*;

verus! {

/// A browser that is not to be offered, by its path or by its name.
#[derive(Debug)]
pub struct ConfigHideBrowsers {
    pub path: String,
    pub name: String,
}

impl Default for ConfigHideBrowsers {
    fn default() -> (h: ConfigHideBrowsers)
        ensures
            h.path@ == Seq::<char>::empty(),
            h.name@ == Seq::<char>::empty(),
    {
        ConfigHideBrowsers { path: String::new(), name: String::new() }
    }
}

/// The settings.
#[derive(Debug)]
pub struct Config {
    /// The version of the settings' layout.
    pub version: i16,
    /// The URL to open when none is given.
    pub default_url: String,
    /// The browsers that are not to be offered.
    pub hide: Vec<ConfigHideBrowsers>,
}

impl Default for Config {
    fn default() -> (c: Config)
        ensures
            c.version == 1,
            c.default_url@ == "about:home"@,
            c.hide@.len() == 0,
    {
        Config { version: 1, default_url: String::from_str("about:home"), hide: Vec::new() }
    }
}

} // verus!
