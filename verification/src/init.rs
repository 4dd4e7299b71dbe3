use vstd::prelude::*;

use crate::hierarchy::{CarrierFs, FileCarrierHierarchy};

verus! {

/// What initialization found and did.
#[derive(Debug, PartialEq)]
pub enum InitOutcome {
    /// The folder was already a carrier; nothing was touched.
    AlreadyCarrier,
    /// The hierarchy was created and the readme placed in the bundle root.
    Created,
}

/// Initializes the carrier hierarchy of the folder at `path`, whose carrier
/// area is mirrored in `fs`.
///
/// When the folder is already a carrier nothing is touched.  Otherwise the
/// data directory and the bundle root are created, an empty reaches ledger is
/// created unless one is already there, the static readme is placed in the
/// bundle root, and the connection marker is left alone.
pub fn initialize_file_carrier(path: &str, fs: &mut CarrierFs) -> (r: InitOutcome)
    ensures
        old(fs).is_carrier() ==> r is AlreadyCarrier && *final(fs) == *old(fs),
        !old(fs).is_carrier() ==> {
            &&& r is Created
            &&& final(fs).is_carrier()
            &&& final(fs).readme_present
            &&& final(fs).reaches is Some
            &&& final(fs).reaches_lines() == old(fs).reaches_lines()
            &&& final(fs).connected == old(fs).connected
        },
{
    let hierarchy = FileCarrierHierarchy::new(path);

    if hierarchy.try_exists(fs) {
        return InitOutcome::AlreadyCarrier;
    }

    hierarchy.create_hierarchy(fs);
    fs.readme_present = true;

    InitOutcome::Created
}

} // verus!
