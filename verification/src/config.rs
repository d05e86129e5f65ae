//! The project configuration: the recognised keys of the `[package]`
//! table. The surrounding program reads the file and fills this in; the
//! defaults below are the ones missing keys take.

use vstd::prelude::*;

verus! {

/// The `[package]` table: name, version, dependencies, source root and
/// entry file.
#[derive(Debug, PartialEq)]
pub struct Package {
    pub name: Option<String>,
    pub version: Option<String>,
    pub dependencies: Vec<String>,
    pub root: String,
    pub entry: String,
}

/// A whole project configuration.
#[derive(Debug, PartialEq)]
pub struct Config {
    pub package: Package,
}

/// The default source root.
pub fn default_root() -> (r: String)
    ensures
        r@ == "src"@,
{
    "src".to_owned()
}

/// The default entry file.
pub fn default_entry() -> (r: String)
    ensures
        r@ == "main.vamp"@,
{
    "main.vamp".to_owned()
}

impl Default for Package {
    /// An unnamed, unversioned package with no dependencies, rooted at
    /// the default source root with the default entry file.
    fn default() -> (r: Package)
        ensures
            r.name is None,
            r.version is None,
            r.dependencies@.len() == 0,
            r.root@ == "src"@,
            r.entry@ == "main.vamp"@,
    {
        Package {
            name: None,
            version: None,
            dependencies: Vec::new(),
            root: default_root(),
            entry: default_entry(),
        }
    }
}

impl Default for Config {
    /// A configuration holding the default package table.
    fn default() -> (r: Config)
        ensures
            r.package.name is None,
            r.package.version is None,
            r.package.dependencies@.len() == 0,
            r.package.root@ == "src"@,
            r.package.entry@ == "main.vamp"@,
    {
        Config { package: Package::default() }
    }
}

} // verus!
