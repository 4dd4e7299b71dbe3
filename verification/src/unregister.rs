use vstd::prelude::*;

use crate::error::FileCarrierError;
use crate::hierarchy::CarrierFs;

verus! {

/// Unregisters a carrier folder from the local node.
///
/// `fs` mirrors the carrier area of `folder`.  The id read from the
/// connection marker is handed back; the caller must send a delete-contact
/// directive for it to the node agent and, only on success, apply
/// `commit_unregistration`.  A missing marker is an IO error, not a no-op:
/// reading it fails exactly as reading any absent file does.  The ledger is
/// never touched, so history accumulates across connect cycles.
pub fn unregister_folder(fs: &CarrierFs, folder: &String) -> (r: Result<
    String,
    FileCarrierError,
>)
    ensures
        !fs.is_carrier() ==> (r matches Err(FileCarrierError::NotAFileCarrier(f)) && f@
            == folder@),
        fs.is_carrier() && fs.connected is None ==> r matches Err(FileCarrierError::IOError),
        fs.is_carrier() && fs.connected is Some ==> (r matches Ok(peer) && peer@
            == fs.connected->Some_0@),
{
    if !(fs.root_is_dir && fs.data_is_dir) {
        return Err(FileCarrierError::NotAFileCarrier(folder.clone()));
    }
    match &fs.connected {
        None => Err(FileCarrierError::IOError),
        Some(peer) => Ok(peer.clone()),
    }
}

/// Applies the effect of a successfully sent delete-contact directive:
/// removes the connection marker.  The ledger and the rest of the carrier
/// area stay as they are.
pub fn commit_unregistration(fs: &mut CarrierFs)
    requires
        old(fs).connected is Some,
    ensures
        final(fs).connected is None,
        final(fs).reaches == old(fs).reaches,
        final(fs).root_is_dir == old(fs).root_is_dir,
        final(fs).data_is_dir == old(fs).data_is_dir,
        final(fs).readme_present == old(fs).readme_present,
{
    fs.connected = None;
}

} // verus!
