//! Where the desktop storage backend keeps each named value: one file per
//! name under a base directory.

use vstd::prelude::*;

verus! {

/// Storage of named string values as files under a base directory.
pub struct DiskStorageBackend {
    base_path: String,
}

impl DiskStorageBackend {
    pub closed spec fn base_spec(&self) -> Seq<char> {
        self.base_path@
    }

    /// A backend rooted at the default storage directory.
    pub fn new() -> (r: DiskStorageBackend)
        ensures
            r.base_spec() == "/home/cub3d/.local/share/ruffle/"@,
    {
        DiskStorageBackend { base_path: "/home/cub3d/.local/share/ruffle/".to_owned() }
    }

    /// A backend rooted at `base_path`, which ends with a separator.
    pub fn with_base_path(base_path: String) -> (r: DiskStorageBackend)
        ensures
            r.base_spec() == base_path@,
    {
        DiskStorageBackend { base_path }
    }

    /// The directory that holds the files.
    pub fn base_path(&self) -> (r: &str)
        ensures
            r@ == self.base_spec(),
    {
        self.base_path.as_str()
    }

    /// The file that holds the value named `name`: the name appended to the
    /// base directory.
    pub fn key_path(&self, name: &str) -> (r: String)
        ensures
            r@ == self.base_spec() + name@,
    {
        let mut p = self.base_path.clone();
        p.append(name);
        p
    }
}

} // verus!
