use vstd::prelude::*;
use vstd::string::StringExecFns;

verus! {

/// Path of the bundle root inside a carrier folder.
pub open spec fn spec_root_path(folder: Seq<char>) -> Seq<char> {
    folder + "/.bundles"@
}

/// Path of the convergence-layer data directory of a carrier folder.
pub open spec fn spec_data_path(folder: Seq<char>) -> Seq<char> {
    spec_root_path(folder) + "/data"@
}

/// Path of the reaches ledger file of a carrier folder.
pub open spec fn spec_reaches_path(folder: Seq<char>) -> Seq<char> {
    spec_root_path(folder) + "/reaches"@
}

/// Path of the connection marker file of a carrier folder.
pub open spec fn spec_connected_path(folder: Seq<char>) -> Seq<char> {
    spec_root_path(folder) + "/.connected"@
}

/// The state of the carrier area of one folder, as the ledger logic sees it.
///
/// The unverified rim mirrors the on-disk `.bundles` area into this value
/// before an operation and applies the value back to disk afterwards:
/// `reaches` holds the lines of the ledger file (`None` when the file is
/// absent), `connected` the single node id of the marker file (`None` when
/// absent).
#[derive(Debug, Clone, PartialEq)]
pub struct CarrierFs {
    /// Whether the bundle root (`<folder>/.bundles`) exists as a directory.
    pub root_is_dir: bool,
    /// Whether the data directory (`<folder>/.bundles/data`) exists.
    pub data_is_dir: bool,
    /// Whether the static readme has been placed in the bundle root.
    pub readme_present: bool,
    /// The lines of the reaches ledger file, oldest first; `None` if absent.
    pub reaches: Option<Vec<String>>,
    /// The node id in the connection marker file; `None` if absent.
    pub connected: Option<String>,
}

impl CarrierFs {
    /// A folder is a carrier when both the bundle root and the data
    /// directory exist; the ledger and the marker are created lazily.
    pub open spec fn is_carrier(&self) -> bool {
        self.root_is_dir && self.data_is_dir
    }

    /// The ledger lines, an absent ledger file reading as empty.
    pub open spec fn reaches_lines(&self) -> Seq<Seq<char>> {
        match self.reaches {
            Some(lines) => lines.deep_view(),
            None => Seq::empty(),
        }
    }
}

/// The carrier path layout derived from a folder: the bundle root
/// `<folder>/.bundles`, the data directory, the reaches ledger file and the
/// connection marker file.
pub struct FileCarrierHierarchy {
    pub root: String,
    pub data: String,
    pub reaches_file: String,
    pub connected_file: String,
}

impl FileCarrierHierarchy {
    /// Derives the carrier paths of `path`, the folder that holds (or will
    /// hold) the `.bundles` directory.
    pub fn new(path: &str) -> (h: Self)
        ensures
            h.root@ == spec_root_path(path@),
            h.data@ == spec_data_path(path@),
            h.reaches_file@ == spec_reaches_path(path@),
            h.connected_file@ == spec_connected_path(path@),
    {
        let mut root = path.to_owned();
        root.append("/.bundles");
        let mut data = root.clone();
        data.append("/data");
        let mut reaches_file = root.clone();
        reaches_file.append("/reaches");
        let mut connected_file = root.clone();
        connected_file.append("/.connected");
        FileCarrierHierarchy { root, data, reaches_file, connected_file }
    }

    /// The path of the bundle root.
    pub fn root(&self) -> (r: &String)
        ensures
            r@ == self.root@,
    {
        &self.root
    }

    /// The path of the data directory.
    pub fn data(&self) -> (r: &String)
        ensures
            r@ == self.data@,
    {
        &self.data
    }

    /// The path of the reaches ledger file.
    pub fn reaches_file(&self) -> (r: &String)
        ensures
            r@ == self.reaches_file@,
    {
        &self.reaches_file
    }

    /// The path of the connection marker file.
    pub fn connected_file(&self) -> (r: &String)
        ensures
            r@ == self.connected_file@,
    {
        &self.connected_file
    }

    /// Whether the hierarchy already exists in `fs`, the state of the folder
    /// the hierarchy was derived from.  Only the bundle root and the data
    /// directory are required; the ledger and the marker may be absent.
    pub fn try_exists(&self, fs: &CarrierFs) -> (r: bool)
        ensures
            r == fs.is_carrier(),
    {
        fs.data_is_dir && fs.root_is_dir
    }

    /// Whether `fs`, the state of the folder at `path`, is an existing
    /// carrier.
    pub fn folder_is_file_carrier(path: &str, fs: &CarrierFs) -> (r: bool)
        ensures
            r == fs.is_carrier(),
    {
        let hierarchy = Self::new(path);
        hierarchy.try_exists(fs)
    }

    /// Creates the hierarchy: the data directory (with its ancestors, so the
    /// bundle root too) if absent, and an empty reaches ledger if absent.
    /// Idempotent; never truncates an existing ledger and never touches the
    /// connection marker.
    pub fn create_hierarchy(&self, fs: &mut CarrierFs)
        ensures
            final(fs).root_is_dir,
            final(fs).data_is_dir,
            final(fs).reaches is Some,
            final(fs).reaches_lines() == old(fs).reaches_lines(),
            final(fs).connected == old(fs).connected,
            final(fs).readme_present == old(fs).readme_present,
    {
        fs.root_is_dir = true;
        fs.data_is_dir = true;
        if fs.reaches.is_none() {
            fs.reaches = Some(Vec::new());
            proof {
                assert(fs.reaches_lines() =~= old(fs).reaches_lines());
            }
        }
    }

    /// Creates the hierarchy of the folder at `path` in `fs`, as
    /// `create_hierarchy` does.
    pub fn create(path: &str, fs: &mut CarrierFs)
        ensures
            final(fs).root_is_dir,
            final(fs).data_is_dir,
            final(fs).reaches is Some,
            final(fs).reaches_lines() == old(fs).reaches_lines(),
            final(fs).connected == old(fs).connected,
            final(fs).readme_present == old(fs).readme_present,
    {
        let hierarchy = Self::new(path);
        hierarchy.create_hierarchy(fs);
    }
}

} // verus!
