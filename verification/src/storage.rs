//! Where the key-material store lives. The host process chooses the
//! data directory (its working directory plus `.megaengine`, unless
//! overridden) and does the reading and writing; the file layout
//! under that directory is decided here.

use vstd::prelude::*;

verus! {

/// The path of the serialized key pair under `data_dir`.
pub fn keypair_path(data_dir: &str) -> (r: String)
    ensures
        r@ == data_dir@ + "/keypair.json"@,
{
    let mut p = String::from_str(data_dir);
    p.append("/keypair.json");
    p
}

} // verus!
