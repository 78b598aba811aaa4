//! The file-backed settings store's path layout: each key is kept in one
//! JSON file directly under the store's root directory.  Reading and
//! writing the files is the runtime's work; the mapping from key to file
//! is fixed here.

use vstd::prelude::*;

verus! {

/// A key-value settings store rooted at one directory.
pub struct StateStore {
    /// The root directory, as a path string.
    pub root: String,
}

impl StateStore {
    /// A store over the given root directory.  The caller creates the
    /// directory itself.
    pub fn new(root: String) -> (s: Self)
        ensures
            s.root@ == root@,
    {
        StateStore { root }
    }

    /// The file that holds `key`: `<root>/<key>.json`.
    pub fn path_for(&self, key: &str) -> (r: String)
        ensures
            r@ == self.root@ + "/"@ + key@ + ".json"@,
    {
        let mut r = self.root.clone();
        r.append("/");
        r.append(key);
        r.append(".json");
        r
    }
}

} // verus!
