//! Where a setting of the application is kept.

use vstd::prelude::*;

verus! {

/// The name of the file that holds the setting `key`: the key with the
/// extension `.json`.
pub fn config_file_name(key: &str) -> (name: String)
    ensures
        name@ == key@ + ".json"@,
{
    String::from_str(key).concat(".json")
}

} // verus!
