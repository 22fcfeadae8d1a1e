//! Asset packages: directories whose files override the game's archives.
use vstd::prelude::*;

use crate::item::{is_item_for_path, AsItem, Item};

verus! {

/// A package is a source for files that override files within the existing
/// games DVDBND archives. It points to a local path containing assets
/// matching the hierarchy they would be served under in the DVDBND.
#[derive(Clone, Debug)]
pub struct Package(pub Item);

impl Package {
    /// The package for `path`.
    pub fn new(path: &str) -> (package: Package)
        ensures
            is_item_for_path(package.0, path@),
    {
        Package::from(Item::new(path))
    }

    /// The package for an owned path.
    pub fn from_path(path: String) -> (package: Package)
        ensures
            is_item_for_path(package.0, path@),
    {
        Package::from(Item::from_path(path))
    }
}

impl AsItem for Package {
    open spec fn spec_item(&self) -> Item {
        self.0
    }

    fn item(&self) -> (r: &Item) {
        &self.0
    }

    fn item_mut(&mut self) -> (r: &mut Item) {
        &mut self.0
    }
}

impl From<Item> for Package {
    fn from(item: Item) -> (r: Package) {
        Package(item)
    }
}

impl vstd::std_specs::convert::FromSpecImpl<Item> for Package {
    open spec fn obeys_from_spec() -> bool {
        true
    }

    open spec fn from_spec(item: Item) -> Package {
        Package(item)
    }
}

} // verus!
