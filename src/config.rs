//! Options for configuring the library, one value per key.
use vstd::prelude::*;

verus! {

#[derive(Clone, Copy, Debug, PartialEq, Eq, Structural, Hash)]
pub enum ConfigKey {
    AssetRootPath,
}

pub struct Config {
    asset_root_path: Option<String>,
}

impl Config {
    /// The value set for a key, if any.
    pub closed spec fn value(&self, k: ConfigKey) -> Option<Seq<char>> {
        match k {
            ConfigKey::AssetRootPath => match self.asset_root_path {
                Some(s) => Some(s@),
                None => None,
            },
        }
    }

    /// A configuration with no value set.
    pub fn new() -> (r: Config)
        ensures
            forall|k: ConfigKey| r.value(k) is None,
    {
        Config { asset_root_path: None }
    }

    pub fn get(&self, k: ConfigKey) -> (r: Option<&String>)
        ensures
            self.value(k) is None ==> r is None,
            self.value(k) is Some ==> (r matches Some(s) && s@ == self.value(k)->0),
    {
        match k {
            ConfigKey::AssetRootPath => match &self.asset_root_path {
                Some(s) => Some(s),
                None => None,
            },
        }
    }

    /// Sets the value of a key; the other keys keep theirs.
    pub fn set(&mut self, k: ConfigKey, v: String)
        ensures
            final(self).value(k) == Some(v@),
            forall|j: ConfigKey| j != k ==> #[trigger] final(self).value(j) == old(self).value(j),
    {
        match k {
            ConfigKey::AssetRootPath => self.asset_root_path = Some(v),
        }
    }
}

} // verus!
