//! Resources and methods of the replica wipe test command.

use vstd::prelude::*;
use vstd::string::StringExecFns;

verus! {

/// A resource that can be wiped.
#[derive(Debug, Clone, Copy, PartialEq, Eq, Structural)]
pub enum Resource {
    Replica,
}

impl Resource {
    /// The command-line names of the wipeable resources.
    pub fn resources() -> (r: Vec<String>)
        ensures
            r@.len() == 1,
            r@[0]@ == "replica"@,
    {
        let mut v: Vec<String> = Vec::new();
        v.push(String::from_str("replica"));
        v
    }
}

/// Method used to wipe a replica.
#[derive(Debug, Clone, Copy, PartialEq, Eq, Structural)]
pub enum WipeMethod {
    /// Leave the data in place.
    NoWipe,
    /// Overwrite with zeroes.
    WriteZeroes,
    /// Unmap the blocks.
    Unmap,
    /// Overwrite with a pattern.
    WritePattern,
}

impl WipeMethod {
    /// The command-line names of the wipe methods.
    pub fn methods() -> (r: Vec<String>)
        ensures
            r@.len() == 4,
            r@[0]@ == "None"@,
            r@[1]@ == "WriteZeroes"@,
            r@[2]@ == "Unmap"@,
            r@[3]@ == "WritePattern"@,
    {
        let mut v: Vec<String> = Vec::new();
        v.push(String::from_str("None"));
        v.push(String::from_str("WriteZeroes"));
        v.push(String::from_str("Unmap"));
        v.push(String::from_str("WritePattern"));
        v
    }
}

} // verus!
